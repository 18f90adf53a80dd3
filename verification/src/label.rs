//! The label shown for the span under the pointer.

use crate::decimal::{decimal, push_decimal};
use crate::record::Span;
use crate::text::COMMA;
use std::collections::HashMap;
use vstd::prelude::*;
use vstd::slice::slice_to_vec;
use vstd::std_specs::hash::group_hash_axioms;
use vstd::utf8::encode_utf8;

verus! {

broadcast use group_hash_axioms;

/// The width in pixels that a label takes for each byte of its text.
pub const LABEL_BYTE_WIDTH: usize = 20;

/// The height of a label in pixels.
pub const LABEL_HEIGHT: u32 = 50;

/// A label: its text in UTF-8 and the size of its rectangle.
#[derive(Debug)]
pub struct Label {
    pub text: Vec<u8>,
    pub width: u32,
    pub height: u32,
}

/// What stands for `tag` in a label: its name where `names` has one, else its
/// decimal digits.
pub open spec fn tag_text(names: Option<HashMap<u64, String>>, tag: u64) -> Seq<u8> {
    match names {
        Some(names) => if names@.contains_key(tag) {
            encode_utf8(names@[tag]@)
        } else {
            decimal(tag as nat)
        },
        None => decimal(tag as nat),
    }
}

/// The text of the label of `span`: what stands for its tag, a comma, and the
/// length of the span. `None` where the span stops before it starts.
pub open spec fn label_text(names: Option<HashMap<u64, String>>, span: Span) -> Option<Seq<u8>> {
    if span.stop < span.start {
        None
    } else {
        Some(tag_text(names, span.tag) + seq![COMMA] + decimal((span.stop - span.start) as nat))
    }
}

/// The label of `span`: its text, and a rectangle of 20 pixels for each byte of
/// the text by 50 pixels. `None` where the span stops before it starts and where
/// 20 times the length of the text is no `usize`.
pub fn draw_text(names: &Option<HashMap<u64, String>>, span: &Span) -> (label: Option<Label>)
    ensures
        match label {
            Some(label) => {
                &&& label_text(*names, *span) == Some(label.text@)
                &&& label.text@.len() * 20 <= usize::MAX
                &&& label.width == ((label.text@.len() * 20) as usize) as u32
                &&& label.height == 50
            },
            None => match label_text(*names, *span) {
                None => true,
                Some(text) => text.len() * 20 > usize::MAX,
            },
        },
{
    if span.stop < span.start {
        return None;
    }
    let mut text: Vec<u8> = Vec::new();
    let mut named = false;
    if let Some(names) = names {
        if let Some(name) = names.get(&span.tag) {
            text = slice_to_vec(name.as_str().as_bytes());
            named = true;
        }
    }
    if !named {
        push_decimal(&mut text, span.tag);
    }
    text.push(COMMA);
    push_decimal(&mut text, span.stop - span.start);
    if text.len() > usize::MAX / LABEL_BYTE_WIDTH {
        return None;
    }
    let width = (text.len() * LABEL_BYTE_WIDTH) as u32;
    Some(Label { text, width, height: LABEL_HEIGHT })
}

} // verus!
