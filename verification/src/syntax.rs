//! Tokens, the token stream, and the name parser: just enough syntax to
//! feed the separated-list parser and to build name expressions from source
//! text. The stream hands out token identifiers (indices), which double as
//! the cross-reference slots of the designators parsed from them.

use vstd::prelude::*;

use crate::ast::{Name, Spanned, WithRef};
use crate::diagnostic::{expected_ident_msg, expected_ident_str, Diagnostic};

verus! {

/// The token kinds this crate distinguishes.
#[derive(Clone, Copy, PartialEq, Eq, Structural, Debug)]
pub enum Kind {
    Identifier,
    Comma,
    Dot,
    All,
    SemiColon,
}

/// One token: its kind, its text (identifiers only), and its position.
#[derive(PartialEq, Eq, Debug)]
pub struct Token {
    pub kind: Kind,
    pub value: String,
    pub pos: usize,
}

/// A stream over a token list; `idx` is the next unconsumed token.
#[derive(PartialEq, Eq, Debug)]
pub struct TokenStream {
    pub tokens: Vec<Token>,
    pub idx: usize,
}

impl TokenStream {
    pub open spec fn wf(&self) -> bool {
        self.idx <= self.tokens@.len()
    }

    /// A stream at the start of `tokens`.
    pub fn new(tokens: Vec<Token>) -> (r: TokenStream)
        ensures
            r.tokens == tokens,
            r.idx == 0,
            r.wf(),
    {
        TokenStream { tokens, idx: 0 }
    }

    /// Whether the next token exists and has kind `kind`.
    pub fn next_kind_is(&self, kind: Kind) -> (r: bool)
        requires
            self.wf(),
        ensures
            r == (self.idx < self.tokens@.len() && self.tokens@[self.idx as int].kind == kind),
    {
        self.idx < self.tokens.len() && self.tokens[self.idx].kind == kind
    }

    /// Consume the next token if it has kind `kind`, handing its identifier
    /// back.
    pub fn pop_if_kind(&mut self, kind: Kind) -> (r: Option<usize>)
        requires
            old(self).wf(),
        ensures
            final(self).tokens == old(self).tokens,
            final(self).wf(),
            if old(self).idx < old(self).tokens@.len() && old(self).tokens@[
                old(self).idx as int
            ].kind == kind {
                r == Some(old(self).idx) && final(self).idx == old(self).idx + 1
            } else {
                r is None && final(self).idx == old(self).idx
            },
    {
        if self.idx < self.tokens.len() && self.tokens[self.idx].kind == kind {
            let id = self.idx;
            self.idx = self.idx + 1;
            Some(id)
        } else {
            None
        }
    }

    /// The position of a token by its identifier.
    pub fn get_pos(&self, token_id: usize) -> (r: usize)
        requires
            token_id < self.tokens@.len(),
        ensures
            r == self.tokens@[token_id as int].pos,
    {
        self.tokens[token_id].pos
    }

    /// The position of the next token, or one past the last token's
    /// position at the end of the stream.
    pub fn peek_pos(&self) -> (r: usize)
        requires
            self.wf(),
        ensures
            r as int == peek_pos_spec(self.tokens@, self.idx as int),
    {
        if self.idx < self.tokens.len() {
            self.tokens[self.idx].pos
        } else {
            0
        }
    }
}

/// An identifier with its position.
pub type Ident = Spanned<String>;

impl TokenStream {
    /// Consume the next token, which must be an identifier, and hand it
    /// back with its position.
    pub fn expect_ident(&mut self) -> (r: Result<Ident, Diagnostic>)
        requires
            old(self).wf(),
        ensures
            final(self).tokens == old(self).tokens,
            final(self).wf(),
            old(self).idx <= final(self).idx,
            if old(self).idx < old(self).tokens@.len() && old(self).tokens@[
                old(self).idx as int
            ].kind == Kind::Identifier {
                r is Ok && r->Ok_0 == (Spanned {
                    item: old(self).tokens@[old(self).idx as int].value,
                    pos: old(self).tokens@[old(self).idx as int].pos,
                }) && final(self).idx == old(self).idx + 1
            } else {
                r is Err && final(self).idx == old(self).idx && r->Err_0@.message
                    == expected_ident_msg()
            },
    {
        if self.idx < self.tokens.len() && self.tokens[self.idx].kind == Kind::Identifier {
            let v = self.tokens[self.idx].value.clone();
            let p = self.tokens[self.idx].pos;
            let id = self.idx;
            self.idx = id + 1;
            Ok(Spanned { item: v, pos: p })
        } else {
            let pos = self.peek_pos();
            Err(Diagnostic::error(pos, expected_ident_str()))
        }
    }
}

/// Where a diagnostic about the next token points: at it, or at position
/// zero for an exhausted stream.
pub open spec fn peek_pos_spec(tokens: Seq<Token>, idx: int) -> int {
    if idx < tokens.len() {
        tokens[idx].pos as int
    } else {
        0
    }
}

/// What parsing a name at `idx` yields: the name tree (designator slots are
/// the token identifiers) and the position after it, or nothing where no
/// name starts there. A name is an identifier followed by any run of dotted
/// suffixes, each an identifier or the selected-all marker.
pub open spec fn spec_parse_name(tokens: Seq<Token>, idx: int) -> Option<(Spanned<Name>, int)> {
    if 0 <= idx < tokens.len() && tokens[idx].kind == Kind::Identifier {
        let first = Spanned {
            item: Name::Designator(WithRef { item: tokens[idx].value, slot: idx as usize }),
            pos: tokens[idx].pos,
        };
        spec_parse_suffixes(tokens, idx + 1, first)
    } else {
        None
    }
}

/// Continue a parsed name `acc` with the dotted suffixes starting at `i`.
pub open spec fn spec_parse_suffixes(tokens: Seq<Token>, i: int, acc: Spanned<Name>) -> Option<
    (Spanned<Name>, int),
>
    decreases tokens.len() - i,
{
    if 0 <= i && i + 1 < tokens.len() && tokens[i].kind == Kind::Dot {
        if tokens[i + 1].kind == Kind::All {
            spec_parse_suffixes(
                tokens,
                i + 2,
                Spanned { item: Name::SelectedAll(Box::new(acc)), pos: acc.pos },
            )
        } else if tokens[i + 1].kind == Kind::Identifier {
            spec_parse_suffixes(
                tokens,
                i + 2,
                Spanned {
                    item: Name::Selected(
                        Box::new(acc),
                        Spanned {
                            item: WithRef {
                                item: tokens[i + 1].value,
                                slot: (i + 1) as usize,
                            },
                            pos: tokens[i + 1].pos,
                        },
                    ),
                    pos: acc.pos,
                },
            )
        } else {
            None
        }
    } else if 0 <= i <= tokens.len() && !(i < tokens.len() && tokens[i].kind == Kind::Dot) {
        Some((acc, i))
    } else {
        None
    }
}

/// Parse one name from the stream.
pub fn parse_name(stream: &mut TokenStream) -> (r: Result<Spanned<Name>, Diagnostic>)
    requires
        old(stream).wf(),
    ensures
        final(stream).tokens == old(stream).tokens,
        final(stream).wf(),
        old(stream).idx <= final(stream).idx,
        match r {
            Ok(name) => spec_parse_name(old(stream).tokens@, old(stream).idx as int) == Some(
                (name, final(stream).idx as int),
            ),
            Err(d) => spec_parse_name(old(stream).tokens@, old(stream).idx as int) is None
                && d@.message == expected_ident_msg(),
        },
{
    if !stream.next_kind_is(Kind::Identifier) {
        let pos = stream.peek_pos();
        return Err(Diagnostic::error(pos, expected_ident_str()));
    }
    let tid = stream.idx;
    let n = stream.tokens.len();
    proof {
        assert(tid < n);
    }
    let tok_value = stream.tokens[tid].value.clone();
    let tok_pos = stream.tokens[tid].pos;
    stream.idx = tid + 1;
    let mut name = Spanned {
        item: Name::Designator(WithRef { item: tok_value, slot: tid }),
        pos: tok_pos,
    };
    loop
        invariant
            stream.wf(),
            stream.tokens == old(stream).tokens,
            old(stream).idx < stream.idx,
            spec_parse_name(old(stream).tokens@, old(stream).idx as int) == spec_parse_suffixes(
                stream.tokens@,
                stream.idx as int,
                name,
            ),
        ensures
            stream.wf(),
            stream.tokens == old(stream).tokens,
            old(stream).idx < stream.idx,
            spec_parse_name(old(stream).tokens@, old(stream).idx as int) == spec_parse_suffixes(
                stream.tokens@,
                stream.idx as int,
                name,
            ),
            !(stream.idx as int + 1 < stream.tokens@.len() && stream.tokens@[
                stream.idx as int
            ].kind == Kind::Dot && (stream.tokens@[stream.idx as int + 1].kind == Kind::All
                || stream.tokens@[stream.idx as int + 1].kind == Kind::Identifier)),
        decreases stream.tokens@.len() - stream.idx,
    {
        if stream.idx < stream.tokens.len() && stream.tokens[stream.idx].kind == Kind::Dot
            && stream.idx + 1 < stream.tokens.len() {
            if stream.tokens[stream.idx + 1].kind == Kind::All {
                stream.idx = stream.idx + 2;
                name = Spanned { pos: name.pos, item: Name::SelectedAll(Box::new(name)) };
            } else if stream.tokens[stream.idx + 1].kind == Kind::Identifier {
                let sid = stream.idx + 1;
                let sval = stream.tokens[sid].value.clone();
                let spos = stream.tokens[sid].pos;
                stream.idx = stream.idx + 2;
                name = Spanned {
                    pos: name.pos,
                    item: Name::Selected(
                        Box::new(name),
                        Spanned { item: WithRef { item: sval, slot: sid }, pos: spos },
                    ),
                };
            } else {
                break ;
            }
        } else {
            break ;
        }
    }
    if stream.next_kind_is(Kind::Dot) {
        proof {
            assert(spec_parse_suffixes(stream.tokens@, stream.idx as int, name) is None);
        }
        let pos = stream.peek_pos();
        return Err(Diagnostic::error(pos, expected_ident_str()));
    }
    proof {
        assert(spec_parse_suffixes(stream.tokens@, stream.idx as int, name) == Some(
            (name, stream.idx as int),
        ));
    }
    Ok(name)
}

} // verus!
