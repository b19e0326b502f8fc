use vstd::prelude::*;

verus! {

/// ASCII space.
pub const SPACE: u8 = 32;

/// ASCII line feed.
pub const NEWLINE: u8 = 10;

/// ASCII carriage return.
pub const CARRIAGE_RETURN: u8 = 13;

/// ASCII comma.
pub const COMMA: u8 = 44;

/// ASCII lower-case letter x.
pub const LOWER_X: u8 = 120;

/// ASCII digit zero.
pub const DIGIT_ZERO: u8 = 48;

/// ASCII digit nine.
pub const DIGIT_NINE: u8 = 57;


/// `s` with every occurrence of byte `c` removed.
pub open spec fn spec_remove(s: Seq<u8>, c: u8) -> Seq<u8>
    decreases s.len(),
{
    if s.len() == 0 {
        Seq::empty()
    } else if s.last() == c {
        spec_remove(s.drop_last(), c)
    } else {
        spec_remove(s.drop_last(), c).push(s.last())
    }
}

/// Remove every occurrence of byte `c`.
pub fn remove_all(s: &[u8], c: u8) -> (r: Vec<u8>)
    ensures
        r@ == spec_remove(s@, c),
{
    let n = s.len();
    let mut r: Vec<u8> = Vec::new();
    let mut i: usize = 0;
    while i < n
        invariant
            n == s@.len(),
            i <= n,
            r@ == spec_remove(s@.subrange(0, i as int), c),
        decreases n - i,
    {
        proof {
            assert(s@.subrange(0, i + 1).drop_last() =~= s@.subrange(0, i as int));
            assert(s@.subrange(0, i + 1).last() == s@[i as int]);
        }
        if s[i] != c {
            r.push(s[i]);
        }
        i += 1;
    }
    proof {
        assert(s@.subrange(0, n as int) =~= s@);
    }
    r
}

/// `s` cut at every occurrence of `sep`: the parts between separators, in
/// order, separators not included. An input without separators is one part;
/// every separator adds one.
pub open spec fn spec_split(s: Seq<u8>, sep: u8) -> Seq<Seq<u8>>
    decreases s.len(),
{
    if s.len() == 0 {
        seq![Seq::<u8>::empty()]
    } else if s[0] == sep {
        seq![Seq::<u8>::empty()] + spec_split(s.drop_first(), sep)
    } else {
        let rest = spec_split(s.drop_first(), sep);
        seq![seq![s[0]] + rest[0]] + rest.drop_first()
    }
}

/// A split always yields at least one part.
pub proof fn lemma_split_nonempty(s: Seq<u8>, sep: u8)
    ensures
        spec_split(s, sep).len() >= 1,
    decreases s.len(),
{
    if s.len() > 0 {
        lemma_split_nonempty(s.drop_first(), sep);
    }
}

/// `parts` with `pre` glued onto the front of its first part.
pub open spec fn spec_prepend_first(pre: Seq<u8>, parts: Seq<Seq<u8>>) -> Seq<Seq<u8>>
    recommends
        parts.len() >= 1,
{
    seq![pre + parts[0]] + parts.drop_first()
}

proof fn lemma_prepend_first_empty(parts: Seq<Seq<u8>>)
    requires
        parts.len() >= 1,
    ensures
        spec_prepend_first(Seq::empty(), parts) == parts,
{
    assert(Seq::<u8>::empty() + parts[0] =~= parts[0]);
    assert(spec_prepend_first(Seq::empty(), parts) =~= parts);
}

proof fn lemma_split_step_sep(s: Seq<u8>, sep: u8, pre: Seq<u8>)
    requires
        s.len() > 0,
        s[0] == sep,
    ensures
        spec_prepend_first(pre, spec_split(s, sep)) == seq![pre] + spec_split(
            s.drop_first(),
            sep,
        ),
{
    lemma_split_nonempty(s.drop_first(), sep);
    assert(pre + Seq::<u8>::empty() =~= pre);
    assert(spec_prepend_first(pre, spec_split(s, sep)) =~= seq![pre] + spec_split(
        s.drop_first(),
        sep,
    ));
}

proof fn lemma_split_step_nonsep(s: Seq<u8>, sep: u8, pre: Seq<u8>)
    requires
        s.len() > 0,
        s[0] != sep,
    ensures
        spec_prepend_first(pre, spec_split(s, sep)) == spec_prepend_first(
            pre.push(s[0]),
            spec_split(s.drop_first(), sep),
        ),
{
    lemma_split_nonempty(s.drop_first(), sep);
    let rest = spec_split(s.drop_first(), sep);
    assert(pre + (seq![s[0]] + rest[0]) =~= pre.push(s[0]) + rest[0]);
    assert((seq![seq![s[0]] + rest[0]] + rest.drop_first()).drop_first() =~= rest.drop_first());
    assert(spec_prepend_first(pre, spec_split(s, sep)) =~= spec_prepend_first(
        pre.push(s[0]),
        rest,
    ));
}

/// Cut `s` at every occurrence of `sep`.
pub fn split_bytes(s: &[u8], sep: u8) -> (r: Vec<Vec<u8>>)
    ensures
        r.deep_view() == spec_split(s@, sep),
        r@.len() >= 1,
{
    let n = s.len();
    let mut parts: Vec<Vec<u8>> = Vec::new();
    let mut cur: Vec<u8> = Vec::new();
    let mut i: usize = 0;
    proof {
        lemma_split_nonempty(s@, sep);
        assert(s@.subrange(0, n as int) =~= s@);
        lemma_prepend_first_empty(spec_split(s@, sep));
        assert(parts.deep_view() =~= Seq::<Seq<u8>>::empty());
    }
    while i < n
        invariant
            n == s@.len(),
            i <= n,
            spec_split(s@, sep) == parts.deep_view() + spec_prepend_first(
                cur@,
                spec_split(s@.subrange(i as int, n as int), sep),
            ),
        decreases n - i,
    {
        let ghost tail = s@.subrange(i as int, n as int);
        let ghost pre_parts = parts.deep_view();
        let ghost pre_cur = cur@;
        proof {
            assert(tail.drop_first() =~= s@.subrange(i + 1, n as int));
            assert(tail[0] == s@[i as int]);
        }
        if s[i] == sep {
            proof {
                lemma_split_step_sep(tail, sep, cur@);
            }
            parts.push(cur);
            cur = Vec::new();
            proof {
                assert(parts.deep_view() =~~= pre_parts.push(pre_cur));
                assert(pre_parts + (seq![pre_cur] + spec_split(
                    s@.subrange(i + 1, n as int),
                    sep,
                )) =~~= parts.deep_view() + spec_prepend_first(
                    cur@,
                    spec_split(s@.subrange(i + 1, n as int), sep),
                )) by {
                    lemma_split_nonempty(s@.subrange(i + 1, n as int), sep);
                    lemma_prepend_first_empty(spec_split(s@.subrange(i + 1, n as int), sep));
                }
            }
        } else {
            proof {
                lemma_split_step_nonsep(tail, sep, cur@);
            }
            cur.push(s[i]);
        }
        i += 1;
    }
    proof {
        assert(s@.subrange(n as int, n as int) =~= Seq::<u8>::empty());
        let ghost pre_parts = parts.deep_view();
        assert(spec_prepend_first(cur@, spec_split(Seq::empty(), sep)) =~= seq![cur@]) by {
            assert(cur@ + Seq::<u8>::empty() =~= cur@);
        }
    }
    let ghost pre_parts = parts.deep_view();
    let ghost pre_cur = cur@;
    parts.push(cur);
    proof {
        assert(parts.deep_view() =~~= pre_parts.push(pre_cur));
        assert(pre_parts + seq![pre_cur] =~~= parts.deep_view());
    }
    parts
}

/// Whether `b` is an ASCII decimal digit.
pub open spec fn is_digit(b: u8) -> bool {
    DIGIT_ZERO <= b && b <= DIGIT_NINE
}

/// Whether `s` consists of decimal digits only.
pub open spec fn all_digits(s: Seq<u8>) -> bool {
    forall|i: int| 0 <= i < s.len() ==> is_digit(#[trigger] s[i])
}

/// The number a digit string denotes, most significant digit first.
pub open spec fn digits_value(s: Seq<u8>) -> int
    decreases s.len(),
{
    if s.len() == 0 {
        0
    } else {
        digits_value(s.drop_last()) * 10 + (s.last() - DIGIT_ZERO)
    }
}

proof fn lemma_digits_value_nonneg(s: Seq<u8>)
    requires
        all_digits(s),
    ensures
        digits_value(s) >= 0,
    decreases s.len(),
{
    if s.len() > 0 {
        assert(all_digits(s.drop_last()));
        lemma_digits_value_nonneg(s.drop_last());
    }
}

/// A digit string is worth at least any of its prefixes.
proof fn lemma_digits_value_prefix_le(s: Seq<u8>, k: int)
    requires
        all_digits(s),
        0 <= k <= s.len(),
    ensures
        digits_value(s.subrange(0, k)) <= digits_value(s),
    decreases s.len(),
{
    if k == s.len() {
        assert(s.subrange(0, k) =~= s);
    } else {
        assert(all_digits(s.drop_last()));
        assert(s.subrange(0, k) =~= s.drop_last().subrange(0, k));
        lemma_digits_value_prefix_le(s.drop_last(), k);
        lemma_digits_value_nonneg(s.drop_last());
    }
}

/// `s` with leading space bytes removed.
pub open spec fn trim_front(s: Seq<u8>) -> Seq<u8>
    decreases s.len(),
{
    if s.len() > 0 && s[0] == SPACE {
        trim_front(s.drop_first())
    } else {
        s
    }
}

/// `s` with trailing space bytes removed.
pub open spec fn trim_back(s: Seq<u8>) -> Seq<u8>
    decreases s.len(),
{
    if s.len() > 0 && s.last() == SPACE {
        trim_back(s.drop_last())
    } else {
        s
    }
}

/// `s` with leading and trailing space bytes removed.
pub open spec fn spec_trim(s: Seq<u8>) -> Seq<u8> {
    trim_back(trim_front(s))
}

/// What a string denotes as a number: its digits after trimming spaces, or
/// nothing if anything else is left, nothing is left, or the value does not
/// fit a machine word.
pub open spec fn spec_parse_usize(s: Seq<u8>) -> Option<usize> {
    let t = spec_trim(s);
    if t.len() > 0 && all_digits(t) && digits_value(t) <= usize::MAX as int {
        Some(digits_value(t) as usize)
    } else {
        None
    }
}

/// Parse a trimmed decimal number.
pub fn parse_usize(s: &[u8]) -> (r: Option<usize>)
    ensures
        r == spec_parse_usize(s@),
{
    let n = s.len();
    let mut lo: usize = 0;
    proof {
        assert(s@.subrange(0, n as int) =~= s@);
    }
    while lo < n && s[lo] == SPACE
        invariant
            n == s@.len(),
            lo <= n,
            trim_front(s@) == trim_front(s@.subrange(lo as int, n as int)),
        decreases n - lo,
    {
        proof {
            assert(s@.subrange(lo as int, n as int).drop_first() =~= s@.subrange(
                lo + 1,
                n as int,
            ));
        }
        lo += 1;
    }
    proof {
        assert(s@.subrange(0, n as int) =~= s@);
        assert(trim_front(s@) == s@.subrange(lo as int, n as int));
    }
    let mut hi: usize = n;
    while hi > lo && s[hi - 1] == SPACE
        invariant
            n == s@.len(),
            lo <= hi <= n,
            trim_back(s@.subrange(lo as int, n as int)) == trim_back(
                s@.subrange(lo as int, hi as int),
            ),
        decreases hi,
    {
        proof {
            assert(s@.subrange(lo as int, hi as int).drop_last() =~= s@.subrange(
                lo as int,
                hi - 1,
            ));
            assert(s@.subrange(lo as int, hi as int).last() == s@[hi - 1]);
        }
        hi -= 1;
    }
    let ghost t = s@.subrange(lo as int, hi as int);
    proof {
        assert(spec_trim(s@) == t);
    }
    if lo == hi {
        proof {
            assert(t.len() == 0);
        }
        return None;
    }
    let mut acc: usize = 0;
    let mut i: usize = lo;
    while i < hi
        invariant
            n == s@.len(),
            lo <= i <= hi <= n,
            hi > lo,
            t == s@.subrange(lo as int, hi as int),
            spec_trim(s@) == t,
            all_digits(t.subrange(0, i - lo)),
            acc == digits_value(t.subrange(0, i - lo)),
        decreases hi - i,
    {
        let b = s[i];
        proof {
            assert(t[i - lo] == s@[i as int]);
        }
        if b < DIGIT_ZERO || b > DIGIT_NINE {
            proof {
                assert(!is_digit(t[i - lo]));
                assert(!all_digits(t));
            }
            return None;
        }
        let ghost pre = t.subrange(0, i - lo);
        proof {
            assert(t.subrange(0, i - lo + 1).drop_last() =~= pre);
            assert(t.subrange(0, i - lo + 1).last() == t[i - lo]);
            assert(all_digits(t.subrange(0, i - lo + 1)));
        }
        let d = (b - DIGIT_ZERO) as usize;
        let stepped = match acc.checked_mul(10) {
            Some(a) => a.checked_add(d),
            None => None,
        };
        match stepped {
            Some(a) => {
                acc = a;
            },
            None => {
                proof {
                    assert(digits_value(t.subrange(0, i - lo + 1)) > usize::MAX as int);
                    if all_digits(t) {
                        lemma_digits_value_prefix_le(t, i - lo + 1);
                        assert(digits_value(t) > usize::MAX as int);
                    }
                }
                return None;
            },
        }
        i += 1;
    }
    proof {
        assert(t.subrange(0, hi - lo) =~= t);
    }
    Some(acc)
}

/// What a list of strings denotes: every part parsed as a number, or
/// nothing if any part fails.
pub open spec fn spec_parse_all(parts: Seq<Seq<u8>>) -> Option<Seq<usize>>
    decreases parts.len(),
{
    if parts.len() == 0 {
        Some(Seq::empty())
    } else {
        match spec_parse_usize(parts[0]) {
            None => None,
            Some(v) => match spec_parse_all(parts.drop_first()) {
                None => None,
                Some(rest) => Some(seq![v] + rest),
            },
        }
    }
}

/// `o` with `v` glued onto the front of its payload.
pub open spec fn spec_opt_prepend(v: Seq<usize>, o: Option<Seq<usize>>) -> Option<Seq<usize>> {
    match o {
        None => None,
        Some(rest) => Some(v + rest),
    }
}

/// Parse every part as a number.
pub fn parse_all(parts: &Vec<Vec<u8>>) -> (r: Option<Vec<usize>>)
    ensures
        match r {
            Some(vals) => spec_parse_all(parts.deep_view()) == Some(vals@),
            None => spec_parse_all(parts.deep_view()) is None,
        },
{
    let ghost dv = parts.deep_view();
    let n = parts.len();
    proof {
        assert(dv.len() == n);
    }
    let mut vals: Vec<usize> = Vec::new();
    let mut i: usize = 0;
    proof {
        assert(dv.skip(0) =~= dv);
        assert(spec_opt_prepend(vals@, spec_parse_all(dv)) == spec_parse_all(dv)) by {
            match spec_parse_all(dv) {
                None => {},
                Some(rest) => {
                    assert(Seq::<usize>::empty() + rest =~= rest);
                },
            }
        }
    }
    while i < n
        invariant
            n == dv.len(),
            dv == parts.deep_view(),
            i <= n,
            spec_parse_all(dv) == spec_opt_prepend(vals@, spec_parse_all(dv.skip(i as int))),
        decreases n - i,
    {
        let ghost tail = dv.skip(i as int);
        proof {
            assert(tail[0] == dv[i as int]);
            assert(dv[i as int] == parts@[i as int]@);
            assert(tail.drop_first() =~= dv.skip(i + 1));
        }
        let v = match parse_usize(parts[i].as_slice()) {
            Some(v) => v,
            None => {
                proof {
                    assert(spec_parse_all(tail) is None);
                }
                return None;
            },
        };
        let ghost pre_vals = vals@;
        vals.push(v);
        proof {
            match spec_parse_all(dv.skip(i + 1)) {
                None => {
                    assert(spec_parse_all(tail) is None);
                },
                Some(rest) => {
                    assert(spec_parse_all(tail) == Some(seq![v] + rest));
                    assert(pre_vals + (seq![v] + rest) =~= vals@ + rest);
                },
            }
        }
        i += 1;
    }
    proof {
        assert(dv.skip(n as int) =~= Seq::<Seq<u8>>::empty());
        assert(vals@ + Seq::<usize>::empty() =~= vals@);
    }
    Some(vals)
}

} // verus!
