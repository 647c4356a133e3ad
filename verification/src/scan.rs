use vstd::prelude::*;
use vstd::string::StringSliceAdditionalSpecFns;

verus! {

/// How deep elements may nest in a text that is handed to the XML parser.
pub const MAX_DEPTH: usize = 128;

/// The byte of `<`.
pub const LT: u8 = 60;

/// The byte of `>`.
pub const GT: u8 = 62;

/// The byte of `!`.
pub const BANG: u8 = 33;

/// The byte of `-`.
pub const DASH: u8 = 45;

/// The byte of `?`.
pub const QUERY: u8 = 63;

/// The byte of `/`.
pub const SLASH: u8 = 47;

/// The byte of `"`.
pub const QUOTE: u8 = 34;

/// The byte of `'`.
pub const APOSTROPHE: u8 = 39;

/// The byte of `[`.
pub const OPEN: u8 = 91;

/// The byte of `]`.
pub const SHUT: u8 = 93;

/// The byte of `A`.
pub const UPPER_A: u8 = 65;

/// The byte of `C`.
pub const UPPER_C: u8 = 67;

/// The byte of `D`.
pub const UPPER_D: u8 = 68;

/// The byte of `E`.
pub const UPPER_E: u8 = 69;

/// The byte of `I`.
pub const UPPER_I: u8 = 73;

/// The byte of `N`.
pub const UPPER_N: u8 = 78;

/// The byte of `T`.
pub const UPPER_T: u8 = 84;

/// The byte of `Y`.
pub const UPPER_Y: u8 = 89;

/// Where in the markup a scan stands.
#[derive(Clone, Copy, Debug, PartialEq, Eq)]
pub enum Mode {
    /// Between tags: in text, before the root element or after it.
    Content,
    /// In a start tag, outside its attribute values.
    Tag,
    /// In an attribute value that ends with the given quote.
    TagQuote(u8),
    /// In something that ends with the next `>`: a closing tag, or the end of a
    /// document type declaration after its `]`.
    Close,
    /// In a comment; the flag says whether it stands in a document type declaration.
    Comment(bool),
    /// In a CDATA section.
    CData,
    /// In a processing instruction; the flag says whether it stands in a document type
    /// declaration.
    Pi(bool),
    /// In a document type declaration, before its `[`.
    DocHead,
    /// In a quoted literal of a document type declaration.
    DocHeadQuote(u8),
    /// Between the declarations in the brackets of a document type declaration.
    Subset,
    /// In a declaration of an element, an attribute list or a notation.
    Decl,
    /// In the declaration of an entity, outside its quoted parts.
    Entity,
    /// In a quoted part of the declaration of an entity.
    EntityQuote(u8),
}

/// The state of a scan: where it stands, how many elements are open, and whether all it
/// has seen is within bounds.
#[derive(Clone, Copy, Debug, PartialEq, Eq)]
pub struct Scan {
    pub mode: Mode,
    pub depth: usize,
    pub ok: bool,
}

/// Whether the byte `a` stands at position `i`.
pub open spec fn one(t: Seq<u8>, i: int, a: u8) -> bool {
    0 <= i < t.len() && t[i] == a
}

/// Whether the bytes `a`, `b` stand at position `i`.
pub open spec fn two(t: Seq<u8>, i: int, a: u8, b: u8) -> bool {
    one(t, i, a) && one(t, i + 1, b)
}

/// Whether the bytes `a`, `b`, `c` stand at position `i`.
pub open spec fn three(t: Seq<u8>, i: int, a: u8, b: u8, c: u8) -> bool {
    one(t, i, a) && one(t, i + 1, b) && one(t, i + 2, c)
}

/// Whether `![CDATA[` stands at position `i`.
pub open spec fn cdata_at(t: Seq<u8>, i: int) -> bool {
    three(t, i, BANG, OPEN, UPPER_C) && three(t, i + 3, UPPER_D, UPPER_A, UPPER_T) && two(t, i + 6, UPPER_A, OPEN)
}

/// Whether `!ENTITY` stands at position `i`.
pub open spec fn entity_at(t: Seq<u8>, i: int) -> bool {
    three(t, i, BANG, UPPER_E, UPPER_N) && three(t, i + 3, UPPER_T, UPPER_I, UPPER_T) && one(t, i + 6, UPPER_Y)
}

/// The mode after a comment or a processing instruction.
pub open spec fn back(in_subset: bool) -> Mode {
    if in_subset {
        Mode::Subset
    } else {
        Mode::Content
    }
}

/// What the byte at position `i` makes of a scan, and how many of the bytes after it
/// are taken together with it.
pub open spec fn step(t: Seq<u8>, i: int, s: Scan) -> (Scan, nat) {
    let c = t[i];
    match s.mode {
        Mode::Content => if c != LT {
            (s, 0)
        } else if three(t, i + 1, BANG, DASH, DASH) {
            (Scan { mode: Mode::Comment(false), ..s }, 3)
        } else if cdata_at(t, i + 1) {
            (Scan { mode: Mode::CData, ..s }, 8)
        } else if one(t, i + 1, QUERY) {
            (Scan { mode: Mode::Pi(false), ..s }, 1)
        } else if one(t, i + 1, BANG) {
            (Scan { mode: Mode::DocHead, ..s }, 1)
        } else if one(t, i + 1, SLASH) {
            (
                Scan {
                    mode: Mode::Close,
                    depth: if s.depth > 0 {
                        (s.depth - 1) as usize
                    } else {
                        0
                    },
                    ..s
                },
                1,
            )
        } else {
            (Scan { mode: Mode::Tag, ..s }, 0)
        },
        Mode::Tag => if c == QUOTE || c == APOSTROPHE {
            (Scan { mode: Mode::TagQuote(c), ..s }, 0)
        } else if c == SLASH && one(t, i + 1, GT) {
            (Scan { mode: Mode::Content, ..s }, 1)
        } else if c == GT {
            if s.depth < MAX_DEPTH {
                (Scan { mode: Mode::Content, depth: (s.depth + 1) as usize, ..s }, 0)
            } else {
                (Scan { mode: Mode::Content, ok: false, ..s }, 0)
            }
        } else {
            (s, 0)
        },
        Mode::TagQuote(q) => if c == q {
            (Scan { mode: Mode::Tag, ..s }, 0)
        } else {
            (s, 0)
        },
        Mode::Close => if c == GT {
            (Scan { mode: Mode::Content, ..s }, 0)
        } else {
            (s, 0)
        },
        Mode::Comment(in_subset) => if c == DASH && two(t, i + 1, DASH, GT) {
            (Scan { mode: back(in_subset), ..s }, 2)
        } else {
            (s, 0)
        },
        Mode::CData => if c == SHUT && two(t, i + 1, SHUT, GT) {
            (Scan { mode: Mode::Content, ..s }, 2)
        } else {
            (s, 0)
        },
        Mode::Pi(in_subset) => if c == QUERY && one(t, i + 1, GT) {
            (Scan { mode: back(in_subset), ..s }, 1)
        } else {
            (s, 0)
        },
        Mode::DocHead => if c == QUOTE || c == APOSTROPHE {
            (Scan { mode: Mode::DocHeadQuote(c), ..s }, 0)
        } else if c == OPEN {
            (Scan { mode: Mode::Subset, ..s }, 0)
        } else if c == GT {
            (Scan { mode: Mode::Content, ..s }, 0)
        } else {
            (s, 0)
        },
        Mode::DocHeadQuote(q) => if c == q {
            (Scan { mode: Mode::DocHead, ..s }, 0)
        } else {
            (s, 0)
        },
        Mode::Subset => if c == SHUT {
            (Scan { mode: Mode::Close, ..s }, 0)
        } else if c != LT {
            (s, 0)
        } else if entity_at(t, i + 1) {
            (Scan { mode: Mode::Entity, ..s }, 7)
        } else if three(t, i + 1, BANG, DASH, DASH) {
            (Scan { mode: Mode::Comment(true), ..s }, 3)
        } else if one(t, i + 1, QUERY) {
            (Scan { mode: Mode::Pi(true), ..s }, 1)
        } else {
            (Scan { mode: Mode::Decl, ..s }, 0)
        },
        Mode::Decl => if c == GT {
            (Scan { mode: Mode::Subset, ..s }, 0)
        } else {
            (s, 0)
        },
        Mode::Entity => if c == QUOTE || c == APOSTROPHE {
            (Scan { mode: Mode::EntityQuote(c), ..s }, 0)
        } else if c == GT {
            (Scan { mode: Mode::Subset, ..s }, 0)
        } else {
            (s, 0)
        },
        Mode::EntityQuote(q) => if c == q {
            (Scan { mode: Mode::Entity, ..s }, 0)
        } else if c == LT {
            (Scan { ok: false, ..s }, 0)
        } else {
            (s, 0)
        },
    }
}

/// The state of a scan at the end of the text, or where it leaves the bounds, when it
/// stands at position `i` in the state `s`.
pub open spec fn run(t: Seq<u8>, i: int, s: Scan) -> Scan
    decreases t.len() - i,
{
    if 0 <= i < t.len() && s.ok {
        run(t, i + 1 + step(t, i, s).1, step(t, i, s).0)
    } else {
        s
    }
}

/// The state in which a scan begins.
pub open spec fn start() -> Scan {
    Scan { mode: Mode::Content, depth: 0, ok: true }
}

/// Whether a text is within the bounds in which the XML parser is called: read as
/// markup, it nests elements no deeper than `MAX_DEPTH`, and no quoted part of an
/// entity declaration holds a `<`.
pub open spec fn bounded(t: Seq<u8>) -> bool {
    run(t, 0, start()).ok
}

fn has_one(t: &[u8], i: usize, a: u8) -> (r: bool)
    ensures
        r == one(t@, i as int, a),
{
    i < t.len() && t[i] == a
}

fn has_two(t: &[u8], i: usize, a: u8, b: u8) -> (r: bool)
    requires
        i <= t.len(),
    ensures
        r == two(t@, i as int, a, b),
{
    t.len() - i >= 2 && t[i] == a && t[i + 1] == b
}

fn has_three(t: &[u8], i: usize, a: u8, b: u8, c: u8) -> (r: bool)
    requires
        i <= t.len(),
    ensures
        r == three(t@, i as int, a, b, c),
{
    t.len() - i >= 3 && t[i] == a && t[i + 1] == b && t[i + 2] == c
}

fn has_cdata(t: &[u8], i: usize) -> (r: bool)
    requires
        i <= t.len(),
    ensures
        r == cdata_at(t@, i as int),
{
    t.len() - i >= 8 && has_three(t, i, BANG, OPEN, UPPER_C) && has_three(t, i + 3, UPPER_D, UPPER_A, UPPER_T)
        && has_two(t, i + 6, UPPER_A, OPEN)
}

fn has_entity(t: &[u8], i: usize) -> (r: bool)
    requires
        i <= t.len(),
    ensures
        r == entity_at(t@, i as int),
{
    t.len() - i >= 7 && has_three(t, i, BANG, UPPER_E, UPPER_N) && has_three(t, i + 3, UPPER_T, UPPER_I, UPPER_T)
        && has_one(t, i + 6, UPPER_Y)
}

/// Takes the byte at position `i` into a scan.
fn step_at(t: &[u8], i: usize, s: Scan) -> (r: (Scan, usize))
    requires
        i < t.len(),
        s.depth <= MAX_DEPTH,
    ensures
        r.0 == step(t@, i as int, s).0,
        r.1 == step(t@, i as int, s).1,
        i + r.1 < t.len(),
        r.0.depth <= MAX_DEPTH,
{
    let c = t[i];
    match s.mode {
        Mode::Content => {
            if c != LT {
                (s, 0)
            } else if has_three(t, i + 1, BANG, DASH, DASH) {
                (Scan { mode: Mode::Comment(false), depth: s.depth, ok: s.ok }, 3)
            } else if has_cdata(t, i + 1) {
                (Scan { mode: Mode::CData, depth: s.depth, ok: s.ok }, 8)
            } else if has_one(t, i + 1, QUERY) {
                (Scan { mode: Mode::Pi(false), depth: s.depth, ok: s.ok }, 1)
            } else if has_one(t, i + 1, BANG) {
                (Scan { mode: Mode::DocHead, depth: s.depth, ok: s.ok }, 1)
            } else if has_one(t, i + 1, SLASH) {
                let depth: usize = if s.depth > 0 {
                    s.depth - 1
                } else {
                    0
                };
                (Scan { mode: Mode::Close, depth, ok: s.ok }, 1)
            } else {
                (Scan { mode: Mode::Tag, depth: s.depth, ok: s.ok }, 0)
            }
        },
        Mode::Tag => {
            if c == QUOTE || c == APOSTROPHE {
                (Scan { mode: Mode::TagQuote(c), depth: s.depth, ok: s.ok }, 0)
            } else if c == SLASH && has_one(t, i + 1, GT) {
                (Scan { mode: Mode::Content, depth: s.depth, ok: s.ok }, 1)
            } else if c == GT {
                if s.depth < MAX_DEPTH {
                    (Scan { mode: Mode::Content, depth: s.depth + 1, ok: s.ok }, 0)
                } else {
                    (Scan { mode: Mode::Content, depth: s.depth, ok: false }, 0)
                }
            } else {
                (s, 0)
            }
        },
        Mode::TagQuote(q) => {
            if c == q {
                (Scan { mode: Mode::Tag, depth: s.depth, ok: s.ok }, 0)
            } else {
                (s, 0)
            }
        },
        Mode::Close => {
            if c == GT {
                (Scan { mode: Mode::Content, depth: s.depth, ok: s.ok }, 0)
            } else {
                (s, 0)
            }
        },
        Mode::Comment(in_subset) => {
            if c == DASH && has_two(t, i + 1, DASH, GT) {
                let mode = if in_subset {
                    Mode::Subset
                } else {
                    Mode::Content
                };
                (Scan { mode, depth: s.depth, ok: s.ok }, 2)
            } else {
                (s, 0)
            }
        },
        Mode::CData => {
            if c == SHUT && has_two(t, i + 1, SHUT, GT) {
                (Scan { mode: Mode::Content, depth: s.depth, ok: s.ok }, 2)
            } else {
                (s, 0)
            }
        },
        Mode::Pi(in_subset) => {
            if c == QUERY && has_one(t, i + 1, GT) {
                let mode = if in_subset {
                    Mode::Subset
                } else {
                    Mode::Content
                };
                (Scan { mode, depth: s.depth, ok: s.ok }, 1)
            } else {
                (s, 0)
            }
        },
        Mode::DocHead => {
            if c == QUOTE || c == APOSTROPHE {
                (Scan { mode: Mode::DocHeadQuote(c), depth: s.depth, ok: s.ok }, 0)
            } else if c == OPEN {
                (Scan { mode: Mode::Subset, depth: s.depth, ok: s.ok }, 0)
            } else if c == GT {
                (Scan { mode: Mode::Content, depth: s.depth, ok: s.ok }, 0)
            } else {
                (s, 0)
            }
        },
        Mode::DocHeadQuote(q) => {
            if c == q {
                (Scan { mode: Mode::DocHead, depth: s.depth, ok: s.ok }, 0)
            } else {
                (s, 0)
            }
        },
        Mode::Subset => {
            if c == SHUT {
                (Scan { mode: Mode::Close, depth: s.depth, ok: s.ok }, 0)
            } else if c != LT {
                (s, 0)
            } else if has_entity(t, i + 1) {
                (Scan { mode: Mode::Entity, depth: s.depth, ok: s.ok }, 7)
            } else if has_three(t, i + 1, BANG, DASH, DASH) {
                (Scan { mode: Mode::Comment(true), depth: s.depth, ok: s.ok }, 3)
            } else if has_one(t, i + 1, QUERY) {
                (Scan { mode: Mode::Pi(true), depth: s.depth, ok: s.ok }, 1)
            } else {
                (Scan { mode: Mode::Decl, depth: s.depth, ok: s.ok }, 0)
            }
        },
        Mode::Decl => {
            if c == GT {
                (Scan { mode: Mode::Subset, depth: s.depth, ok: s.ok }, 0)
            } else {
                (s, 0)
            }
        },
        Mode::Entity => {
            if c == QUOTE || c == APOSTROPHE {
                (Scan { mode: Mode::EntityQuote(c), depth: s.depth, ok: s.ok }, 0)
            } else if c == GT {
                (Scan { mode: Mode::Subset, depth: s.depth, ok: s.ok }, 0)
            } else {
                (s, 0)
            }
        },
        Mode::EntityQuote(q) => {
            if c == q {
                (Scan { mode: Mode::Entity, depth: s.depth, ok: s.ok }, 0)
            } else if c == LT {
                (Scan { mode: s.mode, depth: s.depth, ok: false }, 0)
            } else {
                (s, 0)
            }
        },
    }
}

/// Whether a text is within the bounds in which the XML parser is called.
pub fn is_bounded(xml: &str) -> (r: bool)
    ensures
        r == bounded(xml.spec_bytes()),
{
    let t = xml.as_bytes();
    let mut s = Scan { mode: Mode::Content, depth: 0, ok: true };
    let mut i: usize = 0;
    while i < t.len() && s.ok
        invariant
            i <= t.len(),
            s.depth <= MAX_DEPTH,
            t@ == xml.spec_bytes(),
            run(t@, 0, start()) == run(t@, i as int, s),
        decreases t.len() - i,
    {
        let (next, skip) = step_at(t, i, s);
        s = next;
        i = i + 1 + skip;
    }
    s.ok
}

/// A text without a `<` is bounded: it opens no element and declares no entity.
pub proof fn lemma_text_without_markup_bounded(t: Seq<u8>)
    requires
        forall|i: int| 0 <= i < t.len() ==> t[i] != LT,
    ensures
        bounded(t),
{
    lemma_content_goes_on(t, 0);
}

/// Where no `<` stands, a scan that stands between tags stays there to the end.
proof fn lemma_content_goes_on(t: Seq<u8>, i: int)
    requires
        0 <= i,
        forall|k: int| 0 <= k < t.len() ==> t[k] != LT,
    ensures
        run(t, i, start()) == start(),
    decreases t.len() - i,
{
    if i < t.len() {
        lemma_content_goes_on(t, i + 1);
    }
}

} // verus!
