//! The colours of the text: what the highlighter found, as the editor takes
//! it.

use std::ops::Range;
use vstd::prelude::*;

verus! {

/// What a part of the text is, as far as its colour goes.
#[derive(Debug, Clone, Copy, PartialEq, Eq, Structural)]
pub enum ColorClass {
    Keyword,
    String,
    Constructor,
    Function,
    PunctuationBracket,
    PunctuationDelimiter,
    Property,
    Type,
    Comment,
    Other,
}

/// The class of a capture of the highlighting query, by its name.
pub open spec fn class_of_capture(name: Seq<char>) -> ColorClass {
    if name == "keyword"@ {
        ColorClass::Keyword
    } else if name == "string"@ {
        ColorClass::String
    } else if name == "constructor"@ {
        ColorClass::Constructor
    } else if name == "function"@ {
        ColorClass::Function
    } else if name == "punctuation.bracket"@ {
        ColorClass::PunctuationBracket
    } else if name == "punctuation.delimiter"@ {
        ColorClass::PunctuationDelimiter
    } else if name == "property"@ {
        ColorClass::Property
    } else if name == "type"@ {
        ColorClass::Type
    } else if name == "comment"@ {
        ColorClass::Comment
    } else {
        ColorClass::Other
    }
}

/// `==` of `str`: whether the two hold the same characters.
#[verifier::external_body]
fn str_eq(a: &str, b: &str) -> (same: bool)
    ensures
        same == (a@ == b@),
{
    a == b
}

/// Finds the class of a capture of the highlighting query by its name.
pub fn color_class(name: &str) -> (class: ColorClass)
    ensures
        class == class_of_capture(name@),
{
    if str_eq(name, "keyword") {
        ColorClass::Keyword
    } else if str_eq(name, "string") {
        ColorClass::String
    } else if str_eq(name, "constructor") {
        ColorClass::Constructor
    } else if str_eq(name, "function") {
        ColorClass::Function
    } else if str_eq(name, "punctuation.bracket") {
        ColorClass::PunctuationBracket
    } else if str_eq(name, "punctuation.delimiter") {
        ColorClass::PunctuationDelimiter
    } else if str_eq(name, "property") {
        ColorClass::Property
    } else if str_eq(name, "type") {
        ColorClass::Type
    } else if str_eq(name, "comment") {
        ColorClass::Comment
    } else {
        ColorClass::Other
    }
}

/// A part of the text, as a range of bytes, and its class.
#[derive(Debug)]
pub struct HighlightInfo {
    pub range: Range<usize>,
    pub color: ColorClass,
}

/// The first index from `from` on at which `colors` holds a range with
/// `index` in it.
pub open spec fn index_of_color(colors: Seq<HighlightInfo>, index: int, from: int) -> Option<int>
    decreases colors.len() - from,
{
    if from >= colors.len() {
        None
    } else if colors[from].range.start <= index < colors[from].range.end {
        Some(from)
    } else {
        index_of_color(colors, index, from + 1)
    }
}

/// The class of the byte `index`: that of the first range which holds it.
pub fn color_at(colors: &Vec<HighlightInfo>, index: usize) -> (class: Option<ColorClass>)
    ensures
        match index_of_color(colors@, index as int, 0) {
            Some(i) => class == Some(colors@[i].color),
            None => class == None::<ColorClass>,
        },
{
    let mut i: usize = 0;
    while i < colors.len()
        invariant
            i <= colors@.len(),
            index_of_color(colors@, index as int, 0) == index_of_color(
                colors@,
                index as int,
                i as int,
            ),
        decreases colors@.len() - i,
    {
        if colors[i].range.start <= index && index < colors[i].range.end {
            return Some(colors[i].color);
        }
        i += 1;
    }
    None
}

} // verus!
