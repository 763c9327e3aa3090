//! Parsing of lists of the form `element { separator element }`, keeping
//! the whereabouts of the separator tokens. The element parser is supplied
//! as a value whose specification pins down exactly what it yields at each
//! stream position, so the list parser's contract links every returned
//! element and separator into one chain over the token sequence.

use vstd::prelude::*;

use crate::ast::{Name, Spanned, WithRef};
use crate::diagnostic::{
    diags_view, lemma_diags_view_push, trailing_comma_msg, trailing_comma_str, DiagView, Diagnostic,
};
use crate::syntax::{parse_name, spec_parse_name, Ident, Kind, Token, TokenStream};

verus! {

/// A parser for one list element. `spec_parse` is the parser's whole
/// behaviour: what element it yields at a position of a token sequence and
/// where the element ends, or that it fails there.
pub trait ElementParser {
    type Elem;

    spec fn spec_parse(&self, tokens: Seq<Token>, idx: int) -> Option<(Self::Elem, int)>;

    fn parse(&self, stream: &mut TokenStream) -> (r: Result<Self::Elem, Diagnostic>)
        requires
            old(stream).wf(),
        ensures
            final(stream).tokens == old(stream).tokens,
            final(stream).wf(),
            old(stream).idx <= final(stream).idx,
            match r {
                Ok(e) => self.spec_parse(old(stream).tokens@, old(stream).idx as int) == Some(
                    (e, final(stream).idx as int),
                ),
                Err(_) => self.spec_parse(old(stream).tokens@, old(stream).idx as int) is None,
            },
    ;
}

/// Parses one name as a list element.
pub struct NameParser {}

impl ElementParser for NameParser {
    type Elem = Spanned<Name>;

    open spec fn spec_parse(&self, tokens: Seq<Token>, idx: int) -> Option<(Spanned<Name>, int)> {
        spec_parse_name(tokens, idx)
    }

    fn parse(&self, stream: &mut TokenStream) -> (r: Result<Spanned<Name>, Diagnostic>) {
        parse_name(stream)
    }
}

/// Parses one identifier, wrapped with its cross-reference slot (the token
/// identifier), as a list element.
pub struct IdentParser {}

impl ElementParser for IdentParser {
    type Elem = WithRef<Ident>;

    open spec fn spec_parse(&self, tokens: Seq<Token>, idx: int) -> Option<(WithRef<Ident>, int)> {
        if 0 <= idx < tokens.len() && tokens[idx].kind == Kind::Identifier {
            Some(
                (
                    WithRef {
                        item: Spanned { item: tokens[idx].value, pos: tokens[idx].pos },
                        slot: idx as usize,
                    },
                    idx + 1,
                ),
            )
        } else {
            None
        }
    }

    fn parse(&self, stream: &mut TokenStream) -> (r: Result<WithRef<Ident>, Diagnostic>) {
        let tid = stream.idx;
        match stream.expect_ident() {
            Ok(ident) => Ok(WithRef::new(ident, tid)),
            Err(d) => Err(d),
        }
    }
}

/// A parsed list along with the token identifiers of its separators.
#[derive(PartialEq, Eq, Debug)]
pub struct SeparatedList<T> {
    pub items: Vec<T>,
    pub tokens: Vec<usize>,
}

impl<T> SeparatedList<T> {
    /// A list of one element, with no separators.
    pub fn single(item: T) -> (r: SeparatedList<T>)
        ensures
            r.items@ == seq![item],
            r.tokens@ == Seq::<usize>::empty(),
    {
        let mut items: Vec<T> = Vec::new();
        items.push(item);
        proof {
            assert(items@ =~= seq![item]);
        }
        SeparatedList { items, tokens: Vec::new() }
    }
}

/// A list of names.
pub type NameList = SeparatedList<Spanned<Name>>;

/// A list of identifiers.
pub type IdentList = SeparatedList<WithRef<Ident>>;

/// The chain shape of a separated list without a trailing separator:
/// `bounds[k]` is where item `k` starts, item `k` ends exactly at separator
/// `k`, the next item starts right after it, and the last item ends at
/// `end`.
pub open spec fn chain_core<P: ElementParser>(
    p: P,
    tokens: Seq<Token>,
    idx0: int,
    sep: Kind,
    items: Seq<P::Elem>,
    seps: Seq<usize>,
    bounds: Seq<int>,
    end: int,
) -> bool {
    let n = items.len() as int;
    &&& n >= 1
    &&& seps.len() + 1 == n
    &&& bounds.len() == n
    &&& bounds[0] == idx0
    &&& (forall|k: int|
        0 <= k < n - 1 ==> 0 <= #[trigger] seps[k] < tokens.len() && tokens[seps[k] as int].kind
            == sep)
    &&& (forall|k: int| 0 <= k < n - 1 ==> #[trigger] bounds[k + 1] == seps[k] + 1)
    &&& (forall|k: int|
        0 <= k < n - 1 ==> p.spec_parse(tokens, #[trigger] bounds[k]) == Some(
            (items[k], seps[k] as int),
        ))
    &&& p.spec_parse(tokens, bounds[n - 1]) == Some((items[n - 1], end))
}

/// What a successful list parse means: the items and separators chain from
/// `idx0` to `end`; either no further separator follows (`seps` one shorter
/// than `items`), or the list ended in a trailing separator chased by the
/// final token (`seps` as long as `items`).
pub open spec fn list_chain_with<P: ElementParser>(
    p: P,
    tokens: Seq<Token>,
    idx0: int,
    sep: Kind,
    fin: Kind,
    items: Seq<P::Elem>,
    seps: Seq<usize>,
    end: int,
    bounds: Seq<int>,
) -> bool {
    if seps.len() + 1 == items.len() {
        chain_core(p, tokens, idx0, sep, items, seps, bounds, end) && !(end < tokens.len()
            && tokens[end].kind == sep)
    } else {
        &&& seps.len() == items.len()
        &&& seps.len() >= 1
        &&& chain_core(p, tokens, idx0, sep, items, seps.drop_last(), bounds, seps.last() as int)
        &&& 0 <= seps.last() < tokens.len()
        &&& tokens[seps.last() as int].kind == sep
        &&& seps.last() + 1 < tokens.len()
        &&& tokens[seps.last() as int + 1].kind == fin
        &&& end == seps.last() + 1
    }
}

pub open spec fn list_parse_ok<P: ElementParser>(
    p: P,
    tokens: Seq<Token>,
    idx0: int,
    sep: Kind,
    fin: Kind,
    items: Seq<P::Elem>,
    seps: Seq<usize>,
    end: int,
) -> bool {
    exists|bounds: Seq<int>|
        #[trigger] list_chain_with(p, tokens, idx0, sep, fin, items, seps, end, bounds)
}

/// Parse a list `element { separator element }`. The returned list keeps
/// the token identifiers of the separators. A separator directly followed
/// by `final_token` is reported as a trailing separator and ends the list.
pub fn parse_list_with_separator<P: ElementParser>(
    stream: &mut TokenStream,
    separator: Kind,
    diagnostics: &mut Vec<Diagnostic>,
    final_token: Kind,
    parse_fn: &P,
) -> (r: Result<SeparatedList<P::Elem>, Diagnostic>)
    requires
        old(stream).wf(),
    ensures
        final(stream).tokens == old(stream).tokens,
        final(stream).wf(),
        old(stream).idx <= final(stream).idx,
        match r {
            Ok(list) => {
                &&& list_parse_ok(
                    *parse_fn,
                    old(stream).tokens@,
                    old(stream).idx as int,
                    separator,
                    final_token,
                    list.items@,
                    list.tokens@,
                    final(stream).idx as int,
                )
                &&& if list.tokens@.len() == list.items@.len() {
                    diags_view(final(diagnostics)@) == diags_view(old(diagnostics)@).push(
                        DiagView {
                            pos: old(stream).tokens@[list.tokens@.last() as int].pos as int,
                            message: trailing_comma_msg(),
                        },
                    )
                } else {
                    final(diagnostics)@ == old(diagnostics)@
                }
            },
            Err(_) => final(diagnostics)@ == old(diagnostics)@,
        },
{
    let ghost tokens0 = stream.tokens@;
    let ghost idx0 = stream.idx as int;
    let ghost diags0 = diagnostics@;
    let first = parse_fn.parse(stream)?;
    let mut items: Vec<P::Elem> = Vec::new();
    items.push(first);
    let mut seps: Vec<usize> = Vec::new();
    let ghost mut bounds: Seq<int> = seq![idx0];
    proof {
        assert(items@ =~= seq![first]);
        assert(chain_core(
            *parse_fn,
            tokens0,
            idx0,
            separator,
            items@,
            seps@,
            bounds,
            stream.idx as int,
        ));
    }
    loop
        invariant
            stream.wf(),
            stream.tokens == old(stream).tokens,
            stream.tokens@ == tokens0,
            tokens0 == old(stream).tokens@,
            idx0 == old(stream).idx as int,
            diags0 == old(diagnostics)@,
            idx0 <= stream.idx as int,
            diagnostics@ == diags0,
            chain_core(
                *parse_fn,
                tokens0,
                idx0,
                separator,
                items@,
                seps@,
                bounds,
                stream.idx as int,
            ),
        ensures
            stream.wf(),
            stream.tokens == old(stream).tokens,
            idx0 <= stream.idx as int,
            diagnostics@ == diags0,
            chain_core(
                *parse_fn,
                tokens0,
                idx0,
                separator,
                items@,
                seps@,
                bounds,
                stream.idx as int,
            ),
            !((stream.idx as int) < tokens0.len() && tokens0[stream.idx as int].kind == separator),
        decreases stream.tokens@.len() - stream.idx,
    {
        let ghost items_before = items@;
        let ghost seps_before = seps@;
        let ghost bounds_before = bounds;
        match stream.pop_if_kind(separator) {
            None => {
                break ;
            },
            Some(sep_id) => {
                seps.push(sep_id);
                if stream.next_kind_is(final_token) {
                    let d = Diagnostic::error(stream.get_pos(sep_id), trailing_comma_str());
                    proof {
                        lemma_diags_view_push(diagnostics@, d);
                        assert(seps@.drop_last() =~= seps_before);
                    }
                    diagnostics.push(d);
                    let end = stream.idx;
                    proof {
                        assert(chain_core(
                            *parse_fn,
                            tokens0,
                            idx0,
                            separator,
                            items@,
                            seps@.drop_last(),
                            bounds,
                            seps@.last() as int,
                        ));
                        assert(list_chain_with(
                            *parse_fn,
                            tokens0,
                            idx0,
                            separator,
                            final_token,
                            items@,
                            seps@,
                            end as int,
                            bounds,
                        ));
                    }
                    return Ok(SeparatedList { items, tokens: seps });
                }
                let item = parse_fn.parse(stream)?;
                proof {
                    bounds = bounds.push(sep_id as int + 1);
                }
                items.push(item);
                proof {
                    let n = items@.len() as int;
                    assert(items@ == items_before.push(item));
                    assert(seps@ == seps_before.push(sep_id));
                    assert forall|k: int| 0 <= k < n - 1 implies 0 <= #[trigger] seps@[k]
                        < tokens0.len() && tokens0[seps@[k] as int].kind == separator by {
                        if k < n - 2 {
                            assert(seps@[k] == seps_before[k]);
                        }
                    }
                    assert forall|k: int| 0 <= k < n - 1 implies #[trigger] bounds[k + 1]
                        == seps@[k] + 1 by {
                        if k < n - 2 {
                            assert(bounds[k + 1] == bounds_before[k + 1]);
                            assert(seps@[k] == seps_before[k]);
                        }
                    }
                    assert forall|k: int| 0 <= k < n - 1 implies parse_fn.spec_parse(
                        tokens0,
                        #[trigger] bounds[k],
                    ) == Some((items@[k], seps@[k] as int)) by {
                        if k < n - 2 {
                            assert(bounds[k] == bounds_before[k]);
                            assert(seps@[k] == seps_before[k]);
                            assert(items@[k] == items_before[k]);
                        } else {
                            assert(bounds[k] == bounds_before[n - 2]);
                            assert(items@[k] == items_before[n - 2]);
                        }
                    }
                    assert(chain_core(
                        *parse_fn,
                        tokens0,
                        idx0,
                        separator,
                        items@,
                        seps@,
                        bounds,
                        stream.idx as int,
                    ));
                }
            },
        }
    }
    proof {
        assert(list_chain_with(
            *parse_fn,
            tokens0,
            idx0,
            separator,
            final_token,
            items@,
            seps@,
            stream.idx as int,
            bounds,
        ));
    }
    Ok(SeparatedList { items, tokens: seps })
}

/// Parse a comma-separated list of names.
pub fn parse_name_list(
    stream: &mut TokenStream,
    diagnostics: &mut Vec<Diagnostic>,
    final_token: Kind,
) -> (r: Result<NameList, Diagnostic>)
    requires
        old(stream).wf(),
    ensures
        final(stream).tokens == old(stream).tokens,
        final(stream).wf(),
        old(stream).idx <= final(stream).idx,
        match r {
            Ok(list) => {
                &&& list_parse_ok(
                    NameParser {  },
                    old(stream).tokens@,
                    old(stream).idx as int,
                    Kind::Comma,
                    final_token,
                    list.items@,
                    list.tokens@,
                    final(stream).idx as int,
                )
                &&& if list.tokens@.len() == list.items@.len() {
                    diags_view(final(diagnostics)@) == diags_view(old(diagnostics)@).push(
                        DiagView {
                            pos: old(stream).tokens@[list.tokens@.last() as int].pos as int,
                            message: trailing_comma_msg(),
                        },
                    )
                } else {
                    final(diagnostics)@ == old(diagnostics)@
                }
            },
            Err(_) => final(diagnostics)@ == old(diagnostics)@,
        },
{
    parse_list_with_separator(stream, Kind::Comma, diagnostics, final_token, &(NameParser {  }))
}

/// Parse a comma-separated list of identifiers.
pub fn parse_ident_list(
    stream: &mut TokenStream,
    diagnostics: &mut Vec<Diagnostic>,
    final_token: Kind,
) -> (r: Result<IdentList, Diagnostic>)
    requires
        old(stream).wf(),
    ensures
        final(stream).tokens == old(stream).tokens,
        final(stream).wf(),
        old(stream).idx <= final(stream).idx,
        match r {
            Ok(list) => {
                &&& list_parse_ok(
                    IdentParser {  },
                    old(stream).tokens@,
                    old(stream).idx as int,
                    Kind::Comma,
                    final_token,
                    list.items@,
                    list.tokens@,
                    final(stream).idx as int,
                )
                &&& if list.tokens@.len() == list.items@.len() {
                    diags_view(final(diagnostics)@) == diags_view(old(diagnostics)@).push(
                        DiagView {
                            pos: old(stream).tokens@[list.tokens@.last() as int].pos as int,
                            message: trailing_comma_msg(),
                        },
                    )
                } else {
                    final(diagnostics)@ == old(diagnostics)@
                }
            },
            Err(_) => final(diagnostics)@ == old(diagnostics)@,
        },
{
    parse_list_with_separator(stream, Kind::Comma, diagnostics, final_token, &(IdentParser {  }))
}

} // verus!
