use vstd::prelude::*;

verus! {

/// Whether a text object is taken without its delimiters or with them.
#[derive(Clone, Copy, Debug, PartialEq, Eq, Structural)]
pub enum Span {
    Inside,
    Around,
}

/// What is done with the selection once the text object is resolved.
#[derive(Clone, Copy, Debug, PartialEq, Eq, Structural)]
pub enum Operation {
    Change,
    Delete,
    Yank,
    Select,
}

/// The syntax-tree queries that name a text object.
#[derive(Clone, Copy, Debug, PartialEq, Eq, Structural)]
pub enum Query {
    Class,
    Function,
    Parameter,
    Comment,
    Test,
    Entry,
}

/// The kind of text object an object code stands for.
#[derive(Clone, Copy, Debug, PartialEq, Eq, Structural)]
pub enum ObjectKind {
    Word,
    BigWord,
    Paragraph,
    Syntax(Query),
    ClosestPair,
    LiteralPair(char),
    ChangedHunk,
    Ignored,
}

/// Objects whose range an outside algorithm (a word, paragraph or syntax-tree
/// object) works out.
pub open spec fn answered_outside(k: ObjectKind) -> bool {
    match k {
        ObjectKind::Word | ObjectKind::BigWord | ObjectKind::Paragraph | ObjectKind::Syntax(_) => true,
        _ => false,
    }
}

pub open spec fn spec_is_alphanumeric(ch: char) -> bool {
    ('0' <= ch && ch <= '9') || ('a' <= ch && ch <= 'z') || ('A' <= ch && ch <= 'Z')
}

pub fn is_alphanumeric(ch: char) -> (b: bool)
    ensures
        b == spec_is_alphanumeric(ch),
{
    ('0' <= ch && ch <= '9') || ('a' <= ch && ch <= 'z') || ('A' <= ch && ch <= 'Z')
}

pub open spec fn spec_is_quote(ch: char) -> bool {
    ch == '\'' || ch == '"' || ch == '`'
}

pub fn is_quote(ch: char) -> (b: bool)
    ensures
        b == spec_is_quote(ch),
{
    ch == '\'' || ch == '"' || ch == '`'
}

/// The text object that the object code `ch` selects.
pub open spec fn kind_of(ch: char) -> ObjectKind {
    if ch == 'w' {
        ObjectKind::Word
    } else if ch == 'W' {
        ObjectKind::BigWord
    } else if ch == 'p' {
        ObjectKind::Paragraph
    } else if ch == 't' {
        ObjectKind::Syntax(Query::Class)
    } else if ch == 'f' {
        ObjectKind::Syntax(Query::Function)
    } else if ch == 'a' {
        ObjectKind::Syntax(Query::Parameter)
    } else if ch == 'c' {
        ObjectKind::Syntax(Query::Comment)
    } else if ch == 'T' {
        ObjectKind::Syntax(Query::Test)
    } else if ch == 'e' {
        ObjectKind::Syntax(Query::Entry)
    } else if ch == 'm' {
        ObjectKind::ClosestPair
    } else if ch == 'g' {
        ObjectKind::ChangedHunk
    } else if !spec_is_alphanumeric(ch) {
        ObjectKind::LiteralPair(ch)
    } else {
        ObjectKind::Ignored
    }
}

pub fn object_kind(ch: char) -> (k: ObjectKind)
    ensures
        k == kind_of(ch),
{
    if ch == 'w' {
        ObjectKind::Word
    } else if ch == 'W' {
        ObjectKind::BigWord
    } else if ch == 'p' {
        ObjectKind::Paragraph
    } else if ch == 't' {
        ObjectKind::Syntax(Query::Class)
    } else if ch == 'f' {
        ObjectKind::Syntax(Query::Function)
    } else if ch == 'a' {
        ObjectKind::Syntax(Query::Parameter)
    } else if ch == 'c' {
        ObjectKind::Syntax(Query::Comment)
    } else if ch == 'T' {
        ObjectKind::Syntax(Query::Test)
    } else if ch == 'e' {
        ObjectKind::Syntax(Query::Entry)
    } else if ch == 'm' {
        ObjectKind::ClosestPair
    } else if ch == 'g' {
        ObjectKind::ChangedHunk
    } else if !is_alphanumeric(ch) {
        ObjectKind::LiteralPair(ch)
    } else {
        ObjectKind::Ignored
    }
}

/// The query name a syntax object is looked up under.
pub fn query_name(q: Query) -> (s: &'static str)
    ensures
        q == Query::Class ==> s@ == "class"@,
        q == Query::Function ==> s@ == "function"@,
        q == Query::Parameter ==> s@ == "parameter"@,
        q == Query::Comment ==> s@ == "comment"@,
        q == Query::Test ==> s@ == "test"@,
        q == Query::Entry ==> s@ == "entry"@,
{
    match q {
        Query::Class => "class",
        Query::Function => "function",
        Query::Parameter => "parameter",
        Query::Comment => "comment",
        Query::Test => "test",
        Query::Entry => "entry",
    }
}

} // verus!
