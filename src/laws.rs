//! Properties of the extraction as a whole.
use crate::abi::{abi_of, declarations, described, published, Outcome};
use crate::classify::{tag_named, FunctionTag, FunctionType, Receiver};
use crate::lemmas::{
    all_comment_lines, block_shift, comment_runs_to, first_flag, joined_has_no_opening,
    joined_lines_extend, joined_lines_shift, line_end_extend, line_end_of_first, no_line_comment,
    outside_plain, scopes_after_braceless, scopes_extend, skip_blank_prefix,
};
use crate::normalize::{
    comment_only, joined_lines, kept_line, line_end, normalized, outside_block, skip_space,
    trim_end,
};
use crate::params::{param_content, param_token, params_from, parsed_params, ParamToken};
use crate::scope::scope_texts;
use crate::signature::SignatureView;
use crate::text::is_space;
use vstd::prelude::*;

verus! {

/// A text in which no balanced scope is found has an empty interface.
pub proof fn no_scope_no_function(s: Seq<char>)
    requires
        scope_texts(normalized(s)).len() == 0,
    ensures
        abi_of(s).len() == 0,
{
    assert(declarations(s) =~= Seq::<Outcome>::empty());
}

/// Without a tag, a readable declaration taking `&mut self` is a write and
/// one taking `self` or `&self` is a read.
pub proof fn receiver_decides_untagged(s: SignatureView)
    requires
        tag_named(s.tag) is None,
        parsed_params(s.params) is Ok,
    ensures
        described(s) is Ok,
        parsed_params(s.params)->Ok_0.0 == Receiver::Mutable ==> described(s)->Ok_0.fn_type
            == FunctionType::WRITE,
        parsed_params(s.params)->Ok_0.0 == Receiver::Immutable ==> described(s)->Ok_0.fn_type
            == FunctionType::READ,
{
}

/// On a readable declaration, `init` gives an initializer, `payable` a
/// payable function and `private` a private one, whatever the receiver.
pub proof fn tag_decides(s: SignatureView)
    requires
        parsed_params(s.params) is Ok,
    ensures
        described(s) is Ok,
        tag_named(s.tag) == Some(FunctionTag::Init) ==> described(s)->Ok_0.fn_type
            == FunctionType::INIT,
        tag_named(s.tag) == Some(FunctionTag::Payable) ==> described(s)->Ok_0.fn_type
            == FunctionType::PAYABLE,
        tag_named(s.tag) == Some(FunctionTag::Private) ==> described(s)->Ok_0.fn_type
            == FunctionType::PRIVATE,
{
}

proof fn published_has_no_private(outs: Seq<Outcome>)
    ensures
        forall|i: int|
            0 <= i < published(outs).len() ==> #[trigger] published(outs)[i].fn_type
                != FunctionType::PRIVATE,
    decreases outs.len(),
{
    if outs.len() > 0 {
        published_has_no_private(outs.drop_last());
    }
}

/// No private function appears in an interface.
pub proof fn private_functions_left_out(s: Seq<char>)
    ensures
        forall|i: int|
            0 <= i < abi_of(s).len() ==> #[trigger] abi_of(s)[i].fn_type
                != FunctionType::PRIVATE,
{
    published_has_no_private(declarations(s));
}

/// Extraction depends on the text alone: the same text gives the same
/// interface every time.
pub proof fn extraction_repeats(s: Seq<char>, t: Seq<char>)
    requires
        s == t,
    ensures
        abi_of(s) == abi_of(t),
        declarations(s) == declarations(t),
{
}

/// The named parameters of the pieces from the one that starts at `i` on,
/// in the order in which the pieces stand.
pub open spec fn named_pieces(c: Seq<char>, i: int) -> Seq<(Seq<char>, Seq<char>)>
    decreases c.len() - i,
{
    if i < 0 || i > c.len() {
        Seq::empty()
    } else {
        let e = crate::text::next_char(c, i, c.len() as int, ',');
        let here = match param_token(c, i, e) {
            Ok(ParamToken::Named(n, ty)) => seq![(n, ty)],
            _ => Seq::empty(),
        };
        here + if i <= e < c.len() {
            named_pieces(c, e + 1)
        } else {
            Seq::empty()
        }
    }
}

proof fn params_from_keeps_order(
    c: Seq<char>,
    i: int,
    receiver: Receiver,
    acc: Seq<(Seq<char>, Seq<char>)>,
)
    requires
        params_from(c, i, receiver, acc) is Ok,
    ensures
        params_from(c, i, receiver, acc)->Ok_0.1 == acc + named_pieces(c, i),
    decreases c.len() - i,
{
    if i < 0 || i > c.len() {
        assert(acc + named_pieces(c, i) =~= acc);
    } else {
        let e = crate::text::next_char(c, i, c.len() as int, ',');
        let t = param_token(c, i, e)->Ok_0;
        let r2 = match t {
            ParamToken::SelfRef(r) => r,
            _ => receiver,
        };
        let here = match t {
            ParamToken::Named(n, ty) => seq![(n, ty)],
            _ => Seq::empty(),
        };
        let acc2 = match t {
            ParamToken::Named(n, ty) => acc.push((n, ty)),
            _ => acc,
        };
        assert(acc2 =~= acc + here);
        if i <= e < c.len() {
            params_from_keeps_order(c, e + 1, r2, acc2);
            assert(acc2 + named_pieces(c, e + 1) =~= acc + (here + named_pieces(c, e + 1)));
        } else {
            assert(acc + here =~= acc + (here + Seq::<(Seq<char>, Seq<char>)>::empty()));
        }
    }
}

/// A readable parameter list gives exactly its named parameters, each once,
/// in the order in which they are written.
pub proof fn parameter_order_kept(p: Seq<char>)
    requires
        parsed_params(p) is Ok,
    ensures
        parsed_params(p)->Ok_0.1 == named_pieces(param_content(p), 0),
{
    params_from_keeps_order(param_content(p), 0, Receiver::Absent, Seq::empty());
    assert(Seq::<(Seq<char>, Seq<char>)>::empty() + named_pieces(param_content(p), 0)
        =~= named_pieces(param_content(p), 0));
}

/// A line holding only a `//` comment changes nothing: the text with such a
/// first line has the interface of the text without it.
pub proof fn line_comment_transparent(w: Seq<char>, r: Seq<char>, d: Seq<char>)
    requires
        forall|j: int| 0 <= j < w.len() ==> is_space(#[trigger] w[j]) && w[j] != '\n',
        forall|j: int| 0 <= j < r.len() ==> #[trigger] r[j] != '\n',
    ensures
        abi_of(w + seq!['/', '/'] + r + seq!['\n'] + d) == abi_of(d),
        normalized(w + seq!['/', '/'] + r + seq!['\n'] + d) == normalized(d),
{
    let c = w + seq!['/', '/'] + r;
    let p = c + seq!['\n'];
    let s = p + d;
    assert(w + seq!['/', '/'] + r + seq!['\n'] + d =~= s);
    assert(s.subrange(0, c.len() as int) =~= c);
    assert(s.subrange(0, w.len() as int) =~= w);
    assert(s[c.len() as int] == '\n');
    assert(s[w.len() as int] == '/');
    assert(s[w.len() as int + 1] == '/');
    assert forall|j: int| 0 <= j < c.len() implies #[trigger] c[j] != '\n' by {
        if j < w.len() {
            assert(c[j] == w[j]);
        } else if j < w.len() + 2 {
            assert(c[j] == '/');
        } else {
            assert(c[j] == r[j - w.len() - 2]);
        }
    }
    line_end_of_first(s, c, 0);
    skip_blank_prefix(s, w, 0, c.len() as int);
    assert(comment_only(s, 0));
    joined_lines_shift(p, d, 0, true);
    assert(joined_lines(s, 0, true) =~= joined_lines(s, p.len() as int, true));
    assert(p.len() + 0 == p.len());
}

/// A line holding only a block comment changes nothing: the text with such a
/// first line has the interface of the text without it. The comment holds no
/// `*/` before its end and no `//`, which would cut the line short.
pub proof fn block_comment_transparent(c: Seq<char>, d: Seq<char>)
    requires
        forall|j: int| 0 <= j < c.len() ==> #[trigger] c[j] != '\n',
        forall|j: int|
            0 <= j < c.len() - 1 ==> !(c[j] == '*' && #[trigger] c[j + 1] == '/') && !(c[j]
                == '/' && c[j + 1] == '/'),
    ensures
        abi_of(seq!['/', '*'] + c + seq!['*', '/'] + seq!['\n'] + d) == abi_of(d),
{
    let b = seq!['/', '*'] + c + seq!['*', '/'];
    let p = b + seq!['\n'];
    let s = p + d;
    let n = b.len() as int;
    assert(seq!['/', '*'] + c + seq!['*', '/'] + seq!['\n'] + d =~= s);
    assert(s.subrange(0, n) =~= b);
    assert(s[n] == '\n');
    let b0 = seq!['/', '*'] + c;
    assert(b[0] == '/' && b[1] == '*' && b[n - 2] == '*' && b[n - 1] == '/');
    assert forall|j: int| 2 <= j < n - 2 implies #[trigger] b[j] == c[j - 2] by {
        assert(b[j] == b0[j]);
    }
    assert forall|j: int| 0 <= j < b.len() implies #[trigger] b[j] != '\n' by {
        if 2 <= j < n - 2 {
            assert(b[j] == c[j - 2]);
        }
    }
    line_end_of_first(s, b, 0);
    assert(s[0] == '/');
    assert(skip_space(s, 0, n) == 0);
    assert forall|j: int| 0 <= j < n - 1 implies !(s[j] == '/' && #[trigger] s[j + 1] == '/') by {
        assert(s[j] == b[j] && s[j + 1] == b[j + 1]);
        if 2 <= j && j + 1 < n - 2 {
            assert(b[j] == c[j - 2] && b[j + 1] == c[j - 2 + 1]);
        }
    }
    no_line_comment(s, 0, n);
    assert(s[n - 1] == '/');
    assert(trim_end(s, 0, n) == n);
    assert(!comment_only(s, 0));
    assert(kept_line(s, 0) =~= b);
    joined_lines_shift(p, d, 0, false);
    assert(p.len() + 0 == n + 1);
    let y = joined_lines(d, 0, false);
    assert(joined_lines(s, 0, true) == b + y);
    let x = b + y;
    assert forall|k: int| 2 <= k < n - 2 implies !(x[k] == '*' && #[trigger] x[k + 1] == '/') by {
        assert(x[k] == b[k] && x[k + 1] == b[k + 1]);
        if k + 1 < n - 2 {
            assert(b[k] == c[k - 2] && b[k + 1] == c[k - 2 + 1]);
        }
    }
    assert(x[n - 2] == '*' && x[n - 1] == '/');
    comment_runs_to(x, 2, n - 2);
    assert(x[0] == '/' && x[1] == '*');
    assert(outside_block(x, 0) == seq![' '] + outside_block(x, n));
    block_shift(b, y, 0);
    assert(n + 0 == n);
    let j = joined_lines(d, 0, true);
    first_flag(d, 0);
    let nd = outside_block(j, 0);
    if y.len() == 0 {
        assert(outside_block(y, 0) =~= Seq::<char>::empty());
        assert(j.len() == 0);
        assert(nd =~= Seq::<char>::empty());
        let pad = seq![' '];
        assert(normalized(s) =~= pad + nd);
        assert forall|k: int| 0 <= k < 1 implies #[trigger] pad[k] != '{' by {}
        scopes_after_braceless(pad, nd);
    } else {
        assert(y == seq![' '] + j);
        assert(outside_block(y, 0) == seq![' '] + outside_block(y, 1));
        block_shift(seq![' '], j, 0);
        assert(normalized(s) =~= seq![' ', ' '] + nd);
        let pad = seq![' ', ' '];
        assert forall|k: int| 0 <= k < 2 implies #[trigger] pad[k] != '{' by {}
        scopes_after_braceless(pad, nd);
    }
}


/// A line holding only a block comment after a text changes nothing: the
/// text followed by such a line has the interface of the text alone. The
/// comment holds no `*/` before its end and no `//`; the text opens no block
/// comment.
pub proof fn trailing_block_comment_transparent(d: Seq<char>, c: Seq<char>)
    requires
        forall|j: int| 0 <= j < d.len() - 1 ==> !(d[j] == '/' && #[trigger] d[j + 1] == '*'),
        forall|j: int| 0 <= j < c.len() ==> #[trigger] c[j] != '\n',
        forall|j: int|
            0 <= j < c.len() - 1 ==> !(c[j] == '*' && #[trigger] c[j + 1] == '/') && !(c[j]
                == '/' && c[j + 1] == '/'),
    ensures
        abi_of(d + seq!['\n'] + seq!['/', '*'] + c + seq!['*', '/']) == abi_of(d),
{
    let b = seq!['/', '*'] + c + seq!['*', '/'];
    let x = seq!['\n'] + b;
    let s = d + x;
    let n = b.len() as int;
    assert(d + seq!['\n'] + seq!['/', '*'] + c + seq!['*', '/'] =~= s);
    let b0 = seq!['/', '*'] + c;
    assert(b[0] == '/' && b[1] == '*' && b[n - 2] == '*' && b[n - 1] == '/');
    assert forall|j: int| 2 <= j < n - 2 implies #[trigger] b[j] == c[j - 2] by {
        assert(b[j] == b0[j]);
    }
    // the comment's own line
    let p = d + seq!['\n'];
    assert(s =~= p + b);
    assert forall|j: int| 0 <= j < n - 1 implies !(b[j] == '/' && #[trigger] b[j + 1] == '/') by {
        if 2 <= j && j + 1 < n - 2 {
            assert(b[j] == c[j - 2] && b[j + 1] == c[j - 2 + 1]);
        }
    }
    assert(line_end(b, 0) == n) by {
        assert forall|j: int| 0 <= j < n implies #[trigger] b[j] != '\n' by {
            if 2 <= j < n - 2 {
                assert(b[j] == c[j - 2]);
            }
        }
        let bb = b + seq!['\n'];
        assert(bb.subrange(0, n) =~= b);
        line_end_of_first(bb, b, 0);
        line_end_extend(b, seq!['\n'], 0);
    }
    assert(skip_space(b, 0, n) == 0);
    no_line_comment(b, 0, n);
    assert(trim_end(b, 0, n) == n);
    assert(!comment_only(b, 0));
    assert(kept_line(b, 0) =~= b);
    joined_lines_shift(p, b, 0, false);
    joined_lines_shift(p, b, 0, true);
    assert(p.len() + 0 == d.len() + 1);
    joined_lines_extend(d, x, 0, true);
    let g = all_comment_lines(d, 0);
    let z = joined_lines(s, d.len() as int + 1, g);
    assert(z == if g {
        b
    } else {
        seq![' '] + b
    });
    let j = joined_lines(d, 0, true);
    assert(joined_lines(s, 0, true) == j + z);
    joined_has_no_opening(d, 0, true);
    // the block comment scans away
    assert forall|k: int| 2 <= k < n - 2 implies !(b[k] == '*' && #[trigger] b[k + 1] == '/') by {
        if k + 1 < n - 2 {
            assert(b[k] == c[k - 2] && b[k + 1] == c[k - 2 + 1]);
        }
    }
    comment_runs_to(b, 2, n - 2);
    assert(outside_block(b, n) =~= Seq::<char>::empty());
    assert(outside_block(b, 0) == seq![' ']);
    let q = if g {
        seq![' ']
    } else {
        seq![' ', ' ']
    };
    if !g {
        assert(outside_block(z, 0) == seq![' '] + outside_block(z, 1));
        block_shift(seq![' '], b, 0);
        assert(outside_block(z, 0) =~= q);
    }
    outside_plain(j, z, 0);
    outside_plain(j, Seq::empty(), 0);
    assert(j + Seq::<char>::empty() =~= j);
    assert(j.subrange(0, j.len() as int) =~= j);
    assert(outside_block(Seq::<char>::empty(), 0) =~= Seq::<char>::empty());
    assert(normalized(s) =~= normalized(d) + q);
    assert forall|k: int| 0 <= k < q.len() implies #[trigger] q[k] != '{' && q[k] != '}' by {}
    scopes_extend(normalized(d), q, 0, 0);
}

} // verus!
