//! Shell quoting of single arguments.
use vstd::prelude::*;
use crate::text::{chars_of, owned, push_char, push_str};

verus! {

/// Whether an argument must be quoted: it holds a space, `"`, `$` or `'`.
pub open spec fn needs_quoting(s: Seq<char>) -> bool {
    s.contains(' ') || s.contains('"') || s.contains('$') || s.contains('\'')
}

/// What one character becomes inside single quotes: `'` turns into `'\''`.
pub open spec fn quote_piece(c: char) -> Seq<char> {
    if c == '\'' {
        seq!['\'', '\\', '\'', '\'']
    } else {
        seq![c]
    }
}

/// The body of a single-quoted argument.
pub open spec fn quote_body(s: Seq<char>) -> Seq<char>
    decreases s.len(),
{
    if s.len() == 0 {
        seq![]
    } else {
        quote_body(s.drop_last()) + quote_piece(s.last())
    }
}

/// The shell form of an argument.
pub open spec fn quoted(s: Seq<char>) -> Seq<char> {
    if needs_quoting(s) {
        seq!['\''] + quote_body(s) + seq!['\'']
    } else {
        s
    }
}

/// Quotes a shell argument if it holds a space, `"`, `$` or `'`: the result
/// is then wrapped in single quotes with each inner `'` written `'\''`.
pub fn quote_arg(arg: &str) -> (r: String)
    ensures
        r@ == quoted(arg@),
{
    let cs = chars_of(arg);
    let mut needs = false;
    let mut i: usize = 0;
    while i < cs.len()
        invariant
            cs@ == arg@,
            i <= cs@.len(),
            needs == exists|k: int| 0 <= k < i && (cs@[k] == ' ' || cs@[k] == '"' || cs@[k] == '$' || cs@[k] == '\''),
        decreases cs@.len() - i,
    {
        let c = cs[i];
        if c == ' ' || c == '"' || c == '$' || c == '\'' {
            needs = true;
        }
        i = i + 1;
    }
    assert(needs == needs_quoting(arg@)) by {
        if needs {
            let k = choose|k: int| 0 <= k < cs@.len() && (cs@[k] == ' ' || cs@[k] == '"' || cs@[k] == '$' || cs@[k] == '\'');
            assert(cs@[k] == ' ' ==> arg@.contains(' '));
            assert(cs@[k] == '"' ==> arg@.contains('"'));
            assert(cs@[k] == '$' ==> arg@.contains('$'));
            assert(cs@[k] == '\'' ==> arg@.contains('\''));
        }
        if needs_quoting(arg@) {
            if arg@.contains(' ') {
                let k = choose|k: int| 0 <= k < arg@.len() && arg@[k] == ' ';
            }
            if arg@.contains('"') {
                let k = choose|k: int| 0 <= k < arg@.len() && arg@[k] == '"';
            }
            if arg@.contains('$') {
                let k = choose|k: int| 0 <= k < arg@.len() && arg@[k] == '$';
            }
            if arg@.contains('\'') {
                let k = choose|k: int| 0 <= k < arg@.len() && arg@[k] == '\'';
            }
        }
    }
    if !needs {
        return owned(arg);
    }
    let mut out = String::new();
    push_char(&mut out, '\'');
    let mut j: usize = 0;
    while j < cs.len()
        invariant
            cs@ == arg@,
            j <= cs@.len(),
            out@ == seq!['\''] + quote_body(cs@.subrange(0, j as int)),
        decreases cs@.len() - j,
    {
        let c = cs[j];
        let ghost before = cs@.subrange(0, j as int);
        if c == '\'' {
            push_str(&mut out, "'\\''");
            proof {
                reveal_strlit("'\\''");
            }
        } else {
            push_char(&mut out, c);
        }
        j = j + 1;
        assert(cs@.subrange(0, j as int).drop_last() =~= before);
        assert(out@ =~= seq!['\''] + quote_body(cs@.subrange(0, j as int)));
    }
    push_char(&mut out, '\'');
    assert(cs@.subrange(0, cs@.len() as int) =~= arg@);
    out
}

/// Whether the four characters of `q` from `j` on are the escape `'\''`.
pub open spec fn escape_at(q: Seq<char>, j: int) -> bool {
    0 <= j && j + 4 <= q.len() && q.subrange(j, j + 4) == seq!['\'', '\\', '\'', '\'']
}

/// An argument's shell form is wrapped in single quotes whenever it holds
/// a space, `"`, `$` or `'`, and every `'` inside the wrapping belongs to an
/// escape `'\''`.
pub proof fn lemma_quote_containment(a: Seq<char>)
    requires
        needs_quoting(a),
    ensures
        quoted(a).len() >= 2,
        quoted(a)[0] == '\'',
        quoted(a)[quoted(a).len() - 1] == '\'',
        forall|i: int|
            1 <= i < quoted(a).len() - 1 && #[trigger] quoted(a)[i] == '\'' ==> exists|j: int|
                1 <= j <= i < j + 4 <= quoted(a).len() - 1 && escape_at(quoted(a), j),
{
    lemma_body_escapes(a);
    let q = quoted(a);
    let b = quote_body(a);
    assert(q =~= seq!['\''] + b + seq!['\'']);
    assert forall|i: int| 1 <= i < q.len() - 1 && #[trigger] q[i] == '\'' implies exists|j: int|
        1 <= j <= i < j + 4 <= q.len() - 1 && escape_at(q, j) by {
        assert(b[i - 1] == q[i]);
        let j0 = choose|j: int| 0 <= j <= i - 1 < j + 4 <= b.len() && escape_at(b, j);
        assert(q.subrange(j0 + 1, j0 + 5) =~= b.subrange(j0, j0 + 4));
        assert(escape_at(q, j0 + 1));
    }
}

/// Every `'` of an escaped body lies within an escape `'\''`.
#[verifier::rlimit(50)]
proof fn lemma_body_escapes(s: Seq<char>)
    ensures
        forall|i: int|
            0 <= i < quote_body(s).len() && #[trigger] quote_body(s)[i] == '\'' ==> exists|j: int|
                0 <= j <= i < j + 4 <= quote_body(s).len() && escape_at(quote_body(s), j),
    decreases s.len(),
{
    if s.len() > 0 {
        lemma_body_escapes(s.drop_last());
        let p = quote_body(s.drop_last());
        let e = quote_piece(s.last());
        let b = quote_body(s);
        assert(b == p + e);
        assert forall|i: int| 0 <= i < b.len() && #[trigger] b[i] == '\'' implies exists|j: int|
            0 <= j <= i < j + 4 <= b.len() && escape_at(b, j) by {
            if i < p.len() {
                assert(p[i] == b[i]);
                let j0 = choose|j: int| 0 <= j <= i < j + 4 <= p.len() && escape_at(p, j);
                assert(b.subrange(j0, j0 + 4) =~= p.subrange(j0, j0 + 4));
                assert(escape_at(b, j0));
            } else {
                if s.last() == '\'' {
                    assert(b.subrange(p.len() as int, p.len() as int + 4) =~= e);
                    assert(escape_at(b, p.len() as int));
                } else {
                    assert(b[i] == s.last());
                }
            }
        }
    }
}

} // verus!
