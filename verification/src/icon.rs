//! The fixed set of icons that components may reference.

use vstd::prelude::*;
use vstd::string::StringSliceAdditionalSpecFns;

use crate::text::{append_all, bytes_eq};

verus! {

/// An icon from the fixed icon set.
#[derive(Debug, Clone, Copy, PartialEq, Eq, Structural)]
pub enum Icon {
    /// `alert-circle`
    AlertCircle,
    /// `warning`
    Warning,
    /// `checkmark-circle`
    CheckmarkCircle,
    /// `help-circle`
    HelpCircle,
    /// `information-circle`
    InformationCircle,
    /// `logo-github`
    LogoGithub,
}

impl Icon {
    /// The identifier of this icon.
    pub open spec fn spec_name(self) -> Seq<u8> {
        match self {
            Icon::AlertCircle => "alert-circle".spec_bytes(),
            Icon::Warning => "warning".spec_bytes(),
            Icon::CheckmarkCircle => "checkmark-circle".spec_bytes(),
            Icon::HelpCircle => "help-circle".spec_bytes(),
            Icon::InformationCircle => "information-circle".spec_bytes(),
            Icon::LogoGithub => "logo-github".spec_bytes(),
        }
    }

    /// The SVG fragment of this icon.
    pub open spec fn spec_svg(self) -> Seq<u8> {
        svg_of(self.spec_name())
    }

    /// Render this icon's SVG fragment.
    pub fn svg(&self) -> (r: Vec<u8>)
        ensures
            r@ == self.spec_svg(),
    {
        let name: &'static str = match self {
            Icon::AlertCircle => "alert-circle",
            Icon::Warning => "warning",
            Icon::CheckmarkCircle => "checkmark-circle",
            Icon::HelpCircle => "help-circle",
            Icon::InformationCircle => "information-circle",
            Icon::LogoGithub => "logo-github",
        };
        let mut out: Vec<u8> = Vec::new();
        append_all(&mut out, "<svg class=\"icon\" aria-hidden=\"true\" data-icon=\"".as_bytes());
        append_all(&mut out, name.as_bytes());
        append_all(&mut out, "\"></svg>".as_bytes());
        proof {
            assert(out@ =~= svg_of(self.spec_name()));
        }
        out
    }
}

/// The SVG fragment for an icon with the given identifier.
pub open spec fn svg_of(name: Seq<u8>) -> Seq<u8> {
    "<svg class=\"icon\" aria-hidden=\"true\" data-icon=\"".spec_bytes() + name
        + "\"></svg>".spec_bytes()
}

/// Whether `v` is the identifier of an icon in the set.
pub open spec fn is_icon_name(v: Seq<u8>) -> bool {
    spec_icon_of(v) is Some
}

/// The icon with identifier `v`, if any.
pub open spec fn spec_icon_of(v: Seq<u8>) -> Option<Icon> {
    if v == "alert-circle".spec_bytes() {
        Some(Icon::AlertCircle)
    } else if v == "warning".spec_bytes() {
        Some(Icon::Warning)
    } else if v == "checkmark-circle".spec_bytes() {
        Some(Icon::CheckmarkCircle)
    } else if v == "help-circle".spec_bytes() {
        Some(Icon::HelpCircle)
    } else if v == "information-circle".spec_bytes() {
        Some(Icon::InformationCircle)
    } else if v == "logo-github".spec_bytes() {
        Some(Icon::LogoGithub)
    } else {
        None
    }
}

/// Look up the icon with the given identifier.
pub fn icon_of(v: &[u8]) -> (r: Option<Icon>)
    ensures
        r == spec_icon_of(v@),
{
    if bytes_eq(v, "alert-circle".as_bytes()) {
        Some(Icon::AlertCircle)
    } else if bytes_eq(v, "warning".as_bytes()) {
        Some(Icon::Warning)
    } else if bytes_eq(v, "checkmark-circle".as_bytes()) {
        Some(Icon::CheckmarkCircle)
    } else if bytes_eq(v, "help-circle".as_bytes()) {
        Some(Icon::HelpCircle)
    } else if bytes_eq(v, "information-circle".as_bytes()) {
        Some(Icon::InformationCircle)
    } else if bytes_eq(v, "logo-github".as_bytes()) {
        Some(Icon::LogoGithub)
    } else {
        None
    }
}

/// Check whether `v` names an icon in the set.
pub fn check_icon_name(v: &[u8]) -> (r: bool)
    ensures
        r == is_icon_name(v@),
{
    icon_of(v).is_some()
}

/// The SVG for the icon named `name`, if that icon exists.
pub open spec fn spec_get_icon_svg(name: Seq<u8>) -> Option<Seq<u8>> {
    match spec_icon_of(name) {
        Some(icon) => Some(icon.spec_svg()),
        None => None,
    }
}

/// Look up the SVG fragment for the icon named `name`.
pub fn get_icon_svg(name: &[u8]) -> (r: Option<Vec<u8>>)
    ensures
        match r {
            Some(v) => spec_get_icon_svg(name@) == Some(v@),
            None => spec_get_icon_svg(name@) is None,
        },
{
    match icon_of(name) {
        Some(icon) => Some(icon.svg()),
        None => None,
    }
}

} // verus!
