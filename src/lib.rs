//! A lean, read-only `Cow<'static, str>`.
//!
//! An [`Nbstr`] holds its text in one of three ways, named by a tag that is
//! never zero: up to `MAX_STACK` bytes inline (the tag is their count), a
//! reference to a `&'static str` that is never copied or released, or a
//! `Box<str>` that the value alone owns. Every read goes through the bytes of
//! the text, so equality, ordering and hashing do not depend on the
//! representation.
//!
//! The packed payloads live in the `layout*` modules: each packs a tag with
//! either inline bytes or an (address, length) pair into two machine words,
//! and all of them meet the contract of [`Protected`]. `Nbstr` keeps its
//! inline bytes in the default layout.
use vstd::prelude::*;

pub mod compare;
pub mod conversions;
pub mod layout;
pub mod layout_48bit;
pub mod layout_default;
pub mod layout_shifted;
pub mod nbstr;
pub mod nonzero;
pub mod utf8_char;

pub use layout::Protected;
pub use layout_default::{BOX, LITERAL, MAX_STACK};
pub use nbstr::{take_box, Nbstr};
pub use nonzero::NonZero;
pub use utf8_char::Utf8Char;
