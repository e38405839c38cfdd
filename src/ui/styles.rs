//! Per-state visual attributes.
use crate::utils::Color;
use vstd::prelude::*;

verus! {

/// The state whose style is asked for.
#[derive(Clone, Copy, Debug, PartialEq, Eq, Structural)]
pub enum EUIStatus {
    Default,
    Hover,
    Press,
    Disable,
}

impl Default for EUIStatus {
    fn default() -> (r: EUIStatus)
        ensures
            r == EUIStatus::Default,
    {
        EUIStatus::Default
    }
}

/// The attributes that every style has.
#[derive(Clone, Copy, Debug, PartialEq, Eq, Structural)]
pub struct StyleInner {
    pub bg_color: Option<Color>,
    pub border_color: Option<Color>,
}

impl StyleInner {
    pub fn new() -> (r: StyleInner)
        ensures
            r == (StyleInner { bg_color: None, border_color: None }),
    {
        StyleInner { bg_color: None, border_color: None }
    }
}

impl Default for StyleInner {
    fn default() -> (r: StyleInner)
        ensures
            r == (StyleInner { bg_color: None, border_color: None }),
    {
        StyleInner::new()
    }
}

/// A style type that extends `StyleInner`.
pub trait TStyle: Sized {
    /// The common part of the style.
    spec fn style_inner(&self) -> StyleInner;

    /// The same style with its common part replaced.
    spec fn with_style_inner(&self, s: StyleInner) -> Self;

    fn get_inner(&self) -> (r: &StyleInner)
        ensures
            *r == self.style_inner(),
    ;

    fn get_mut_inner(&mut self) -> (r: &mut StyleInner)
        ensures
            *r == old(self).style_inner(),
            *final(self) == old(self).with_style_inner(*final(r)),
    ;
}

/// One style for the default state, and optional overrides for the others.
pub struct Styles<T: TStyle> {
    pub default: T,
    pub hover: Option<T>,
    pub press: Option<T>,
    pub disable: Option<T>,
}

impl<T: TStyle> Styles<T> {
    /// The style set for `status`, if any.
    pub open spec fn style_for(self, status: EUIStatus) -> Option<T> {
        match status {
            EUIStatus::Default => Some(self.default),
            EUIStatus::Hover => self.hover,
            EUIStatus::Press => self.press,
            EUIStatus::Disable => self.disable,
        }
    }

    /// The same set with the style for `status` replaced by `t`.
    pub open spec fn with_style(self, status: EUIStatus, t: T) -> Styles<T> {
        match status {
            EUIStatus::Default => Styles { default: t, ..self },
            EUIStatus::Hover => Styles { hover: Some(t), ..self },
            EUIStatus::Press => Styles { press: Some(t), ..self },
            EUIStatus::Disable => Styles { disable: Some(t), ..self },
        }
    }

    pub fn new(default: T) -> (r: Styles<T>)
        ensures
            r.default == default,
            r.hover is None,
            r.press is None,
            r.disable is None,
    {
        Styles { default, hover: None, press: None, disable: None }
    }

    pub fn get_inner_style(&self, status: EUIStatus) -> (r: Option<&StyleInner>)
        ensures
            self.style_for(status) is None ==> r is None,
            self.style_for(status) is Some ==> r is Some && *r->0 == self.style_for(
                status,
            )->0.style_inner(),
    {
        match status {
            EUIStatus::Default => Some(self.default.get_inner()),
            EUIStatus::Hover => match &self.hover {
                Some(f) => Some(f.get_inner()),
                None => None,
            },
            EUIStatus::Press => match &self.press {
                Some(f) => Some(f.get_inner()),
                None => None,
            },
            EUIStatus::Disable => match &self.disable {
                Some(f) => Some(f.get_inner()),
                None => None,
            },
        }
    }

    pub fn get_mut_inner_style(&mut self, status: EUIStatus) -> (r: Option<&mut StyleInner>)
        ensures
            old(self).style_for(status) is None ==> r is None && *final(self) == *old(self),
            old(self).style_for(status) is Some ==> {
                let t = old(self).style_for(status)->0;
                &&& r is Some
                &&& *r->0 == t.style_inner()
                &&& *final(self) == old(self).with_style(
                    status,
                    t.with_style_inner(*final(r->0)),
                )
            },
    {
        match status {
            EUIStatus::Default => Some(self.default.get_mut_inner()),
            EUIStatus::Hover => match &mut self.hover {
                Some(f) => Some(f.get_mut_inner()),
                None => None,
            },
            EUIStatus::Press => match &mut self.press {
                Some(f) => Some(f.get_mut_inner()),
                None => None,
            },
            EUIStatus::Disable => match &mut self.disable {
                Some(f) => Some(f.get_mut_inner()),
                None => None,
            },
        }
    }
}

} // verus!
