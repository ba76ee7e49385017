//! A source file held in memory: its identifier and its bytes.

use std::rc::Rc;
use vstd::prelude::*;
use vstd::slice::slice_subrange;
use crate::relative_path::{share, RelativePath, RelativePathView};

verus! {

/// What the contracts see of a source file.
pub struct SourceTextView {
    pub file: RelativePathView,
    pub text: Seq<u8>,
}

/// The part of `text` that starts at byte `start` and is `length` bytes
/// long, cut short where the text ends first.
pub open spec fn sub_of(text: Seq<u8>, start: int, length: int) -> Seq<u8>
    recommends
        0 <= start,
        0 <= length,
{
    if start >= text.len() {
        Seq::<u8>::empty()
    } else if start + length > text.len() {
        text.subrange(start, text.len() as int)
    } else {
        text.subrange(start, start + length)
    }
}

/// A source file held in memory.
pub struct SourceText {
    file_path: Rc<RelativePath>,
    text: Vec<u8>,
}

impl View for SourceText {
    type V = SourceTextView;

    closed spec fn view(&self) -> SourceTextView {
        SourceTextView { file: self.file_path@, text: self.text@ }
    }
}

impl SourceText {
    pub fn make(file_path: Rc<RelativePath>, text: Vec<u8>) -> (s: SourceText)
        ensures
            s@ == (SourceTextView { file: file_path@, text: text@ }),
    {
        SourceText { file_path, text }
    }

    /// The length of a text in memory fits a machine word.
    pub proof fn lemma_length_fits(&self)
        ensures
            self@.text.len() <= usize::MAX,
    {
        assert(self.text@.len() == self.text.len());
    }

    pub fn file_path(&self) -> (f: &RelativePath)
        ensures
            f@ == self@.file,
    {
        &self.file_path
    }

    pub fn file_path_rc(&self) -> (f: Rc<RelativePath>)
        ensures
            f@ == self@.file,
    {
        share(&self.file_path)
    }

    pub fn text(&self) -> (t: &[u8])
        ensures
            t@ == self@.text,
    {
        self.text.as_slice()
    }

    pub fn length(&self) -> (n: usize)
        ensures
            n == self@.text.len(),
    {
        self.text.len()
    }

    /// The `length` bytes from byte `start` on, or as many as there are.
    pub fn sub(&self, start: usize, length: usize) -> (t: &[u8])
        ensures
            t@ == sub_of(self@.text, start as int, length as int),
    {
        let len: usize = self.text.len();
        if start >= len {
            slice_subrange(self.text.as_slice(), 0, 0)
        } else if length > len - start {
            slice_subrange(self.text.as_slice(), start, len)
        } else {
            slice_subrange(self.text.as_slice(), start, start + length)
        }
    }
}

} // verus!
