use simple_ui::utils::{cal_real_rc, in_rc, ScaleDpi, TScaleDpi};
use simple_ui::{IPoint, IRect};

#[test]
fn test_cal_real_rc() {
    let real_rc = IRect::new(10, 20, 200, 400);
    {
        let rc1 = IRect::new(10, 10, 20, 20);
        let rc2 = IRect::new(20, 30, 30, 40);
        assert_eq!(cal_real_rc(&real_rc, rc1), rc2);
    }
    {
        let rc1 = IRect::new(10, 10, 300, 20);
        let rc2 = IRect::new(20, 30, 200, 40);
        assert_eq!(cal_real_rc(&real_rc, rc1), rc2);
    }
    {
        let rc1 = IRect::new(10, 10, 20, 500);
        let rc2 = IRect::new(20, 30, 30, 400);
        assert_eq!(cal_real_rc(&real_rc, rc1), rc2);
    }
    {
        let rc1 = IRect::new(10, 10, 10, 20);
        let rc2 = IRect::default();
        assert_eq!(cal_real_rc(&real_rc, rc1), rc2);
    }
    {
        let rc1 = IRect::new(200, 10, 220, 20);
        let rc2 = IRect::default();
        assert_eq!(cal_real_rc(&real_rc, rc1), rc2);
    }
    {
        let rc1 = IRect::new(10, 1110, 20, 1120);
        let rc2 = IRect::default();
        assert_eq!(cal_real_rc(&real_rc, rc1), rc2);
    }
}

#[test]
fn test_in_rc() {
    assert!(!in_rc(&IRect::new(10, 10, 20, 20), &IPoint::new(11, 21)));
    assert!(!in_rc(&IRect::new(10, 10, 20, 20), &IPoint::new(9, 12)));
    assert!(!in_rc(&IRect::new(10, 10, 20, 20), &IPoint::new(9, 21)));
    assert!(in_rc(&IRect::new(10, 10, 20, 20), &IPoint::new(11, 20)));
}

#[test]
fn cal_real_rc_cuts_left_and_top_overhang() {
    let real_rc = IRect::new(10, 20, 200, 400);
    assert_eq!(cal_real_rc(&real_rc, IRect::new(-5, -5, 20, 20)), IRect::new(10, 20, 30, 40));
    assert_eq!(cal_real_rc(&real_rc, IRect::new(-50, 0, -10, 20)), IRect::default());
}

#[test]
fn scale_rounds_toward_zero() {
    let dpi = ScaleDpi::new(3, 2);
    assert_eq!(dpi.scale(7i32), 10);
    assert_eq!(dpi.scale(-7i32), -10);
    assert_eq!(dpi.rescale(10i32), 6);
    assert_eq!(dpi.rescale(-10i32), -6);
    assert_eq!(IRect::new(1, 2, 3, 4).scale(&ScaleDpi::new(2, 1)), IRect::new(2, 4, 6, 8));
    assert_eq!(IPoint::new(5, 9).rescale(&ScaleDpi::new(2, 1)), IPoint::new(2, 4));
}

#[test]
fn scale_saturates() {
    let dpi = ScaleDpi::new(4, 1);
    assert_eq!(dpi.scale(i32::MAX), i32::MAX);
    assert_eq!(dpi.scale(i32::MIN), i32::MIN);
}

#[test]
fn rescale_round_trip_within_tolerance() {
    let dpi = ScaleDpi::new(5, 4);
    let rc = IRect::new(-13, 7, 101, 333);
    let back = rc.scale(&dpi).rescale(&dpi);
    for (a, b) in [(rc.left, back.left), (rc.top, back.top), (rc.right, back.right), (rc.bottom, back.bottom)] {
        assert!(5 * (a - b).abs() < 5 + 4);
    }
    let dpi2 = ScaleDpi::new(2, 1);
    assert_eq!(IRect::new(3, 5, 7, 9).scale(&dpi2).rescale(&dpi2), IRect::new(3, 5, 7, 9));
}
