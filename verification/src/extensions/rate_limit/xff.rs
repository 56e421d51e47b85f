//! The client's IP as a proxy reports it, in the `X-Forwarded-For` header: a
//! comma-separated list whose first entry is the client.
use vstd::prelude::*;

verus! {

/// How many characters at the start of `s` are not a comma.
pub open spec fn comma_run(s: Seq<char>) -> nat
    decreases s.len(),
{
    if s.len() == 0 || s[0] == ',' {
        0
    } else {
        1 + comma_run(s.drop_first())
    }
}

/// The first entry of the comma-separated list `v`: the text before the first comma,
/// or all of `v` when it has none.
pub open spec fn first_entry(v: Seq<char>) -> Seq<char> {
    v.take(comma_run(v) as int)
}

/// The first entry of an `X-Forwarded-For` value: the address of the client as the
/// first proxy saw it. Whether it is an IP address is for the caller to parse.
pub fn forwarded_client(value: &str) -> (r: &str)
    ensures
        r@ == first_entry(value@),
{
    let n = value.unicode_len();
    let mut j: usize = 0;
    assert(value@.skip(0) =~= value@);
    while j < n && value.get_char(j) != ','
        invariant
            j <= n,
            n == value@.len(),
            comma_run(value@) == j + comma_run(value@.skip(j as int)),
        decreases n - j,
    {
        assert(value@.skip(j as int)[0] == value@[j as int]);
        assert(value@.skip(j as int).drop_first() =~= value@.skip(j + 1));
        j = j + 1;
    }
    assert(comma_run(value@.skip(j as int)) == 0) by {
        if j < n {
            assert(value@.skip(j as int)[0] == value@[j as int]);
        }
    }
    let first = value.substring_char(0, j);
    assert(first@ =~= value@.take(j as int));
    first
}

proof fn lemma_comma_run(v: Seq<char>)
    ensures
        comma_run(v) <= v.len(),
        forall|i: int| 0 <= i < comma_run(v) ==> #[trigger] v[i] != ',',
        comma_run(v) < v.len() ==> v[comma_run(v) as int] == ',',
    decreases v.len(),
{
    if v.len() > 0 && v[0] != ',' {
        let r = v.drop_first();
        lemma_comma_run(r);
        assert forall|i: int| 0 <= i < comma_run(v) implies #[trigger] v[i] != ',' by {
            if i > 0 {
                assert(v[i] == r[i - 1]);
            }
        }
    }
}

/// The first entry holds no comma, it is a prefix of the value, and a comma follows it
/// unless it is the whole value.
pub proof fn lemma_first_entry_has_no_comma(v: Seq<char>)
    ensures
        first_entry(v).len() <= v.len(),
        first_entry(v) == v.subrange(0, first_entry(v).len() as int),
        forall|i: int| 0 <= i < first_entry(v).len() ==> #[trigger] first_entry(v)[i] != ',',
        first_entry(v).len() < v.len() ==> v[first_entry(v).len() as int] == ',',
{
    lemma_comma_run(v);
    assert forall|i: int| 0 <= i < first_entry(v).len() implies #[trigger] first_entry(v)[i] != ',' by {
        assert(first_entry(v)[i] == v[i]);
    }
}

} // verus!
