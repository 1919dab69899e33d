use vstd::prelude::*;
use crate::object::{Span, Operation};

verus! {

/// A text-object command waiting for its object code.
#[derive(Clone, Copy, Debug, PartialEq, Eq, Structural)]
pub struct PendingRequest {
    pub span: Span,
    pub op: Operation,
    pub count: usize,
}

/// Whether a text-object command is waiting for the next key.
#[derive(Clone, Copy, Debug, PartialEq, Eq, Structural)]
pub enum KeyState {
    Idle,
    Awaiting(PendingRequest),
}

/// Arms the one-shot listener for a text-object command.
pub fn begin(span: Span, op: Operation, count: usize) -> (s: KeyState)
    ensures
        s == KeyState::Awaiting(PendingRequest { span, op, count }),
{
    KeyState::Awaiting(PendingRequest { span, op, count })
}

/// Takes one key event: a character completes the waiting request and hands
/// it out with the object code; any other key leaves the state as it was.
pub fn on_key(state: KeyState, key: Option<char>) -> (res: (KeyState, Option<(PendingRequest, char)>))
    ensures
        match (state, key) {
            (KeyState::Awaiting(req), Some(ch)) => res == (KeyState::Idle, Some((req, ch))),
            _ => res == (state, None::<(PendingRequest, char)>),
        },
{
    match (state, key) {
        (KeyState::Awaiting(req), Some(ch)) => (KeyState::Idle, Some((req, ch))),
        _ => (state, None),
    }
}

/// The title of the help overlay shown while a code is awaited.
pub fn help_title(span: Span) -> (s: &'static str)
    ensures
        span == Span::Inside ==> s@ == "Match inside"@,
        span == Span::Around ==> s@ == "Match around"@,
{
    match span {
        Span::Inside => "Match inside",
        Span::Around => "Match around",
    }
}

pub open spec fn help_codes() -> Seq<char> {
    seq!['w', 'W', 'p', 't', 'f', 'a', 'c', 'T', 'e', 'm', 'g', ' ']
}

pub open spec fn help_descriptions() -> Seq<Seq<char>> {
    seq![
        "Word"@,
        "WORD"@,
        "Paragraph"@,
        "Type definition (tree-sitter)"@,
        "Function (tree-sitter)"@,
        "Argument/parameter (tree-sitter)"@,
        "Comment (tree-sitter)"@,
        "Test (tree-sitter)"@,
        "Data structure entry (tree-sitter)"@,
        "Closest surrounding pair (tree-sitter)"@,
        "Change"@,
        "... or any character acting as a pair"@,
    ]
}

/// The object codes listed in the help overlay, each with what it selects.
pub fn help_entries() -> (v: Vec<(char, &'static str)>)
    ensures
        v@.len() == help_codes().len(),
        forall|i: int| 0 <= i < v@.len() ==> #[trigger] v@[i].0 == help_codes()[i],
        forall|i: int| 0 <= i < v@.len() ==> #[trigger] v@[i].1@ == help_descriptions()[i],
{
    let v = vec![
        ('w', "Word"),
        ('W', "WORD"),
        ('p', "Paragraph"),
        ('t', "Type definition (tree-sitter)"),
        ('f', "Function (tree-sitter)"),
        ('a', "Argument/parameter (tree-sitter)"),
        ('c', "Comment (tree-sitter)"),
        ('T', "Test (tree-sitter)"),
        ('e', "Data structure entry (tree-sitter)"),
        ('m', "Closest surrounding pair (tree-sitter)"),
        ('g', "Change"),
        (' ', "... or any character acting as a pair"),
    ];
    assert(v@.len() == 12);
    v
}

} // verus!
