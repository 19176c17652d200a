//! Backup names sort in the order of the moments they name.
use crate::clock::{digit, four_digits, timestamp_text, two_digits, DateParts};
use crate::order::lex_lt;
use vstd::prelude::*;

verus! {

/// `p` is an earlier moment than `q`, field by field as the token shows them.
pub open spec fn earlier(p: DateParts, q: DateParts) -> bool {
    p.year < q.year || (p.year == q.year && (p.month < q.month || (p.month == q.month && (p.day
        < q.day || (p.day == q.day && (p.hour < q.hour || (p.hour == q.hour && (p.minute
        < q.minute || (p.minute == q.minute && p.shown_second() < q.shown_second())))))))))
}

/// The characters of `fields`, one field after the other.
pub open spec fn chain(fields: Seq<Seq<char>>) -> Seq<char>
    decreases fields.len(),
{
    if fields.len() == 0 {
        seq![]
    } else {
        chain(fields.drop_last()) + fields.last()
    }
}

proof fn lemma_first_diff(a: Seq<char>, b: Seq<char>, i: int)
    requires
        a.len() == b.len(),
        0 <= i < a.len(),
        forall|j: int| 0 <= j < i ==> a[j] == b[j],
        (a[i] as int) < (b[i] as int),
    ensures
        lex_lt(a, b),
    decreases i,
{
    if i > 0 {
        lemma_first_diff(a.skip(1), b.skip(1), i - 1);
        if a == b {
            assert(a.skip(1) == b.skip(1));
        }
    }
}

proof fn lemma_extend(a: Seq<char>, b: Seq<char>, c: Seq<char>, d: Seq<char>)
    requires
        a.len() == b.len(),
        lex_lt(a, b),
    ensures
        lex_lt(a + c, b + d),
    decreases a.len(),
{
    if a.len() == 0 {
        assert(a =~= b);
    } else {
        assert((a + c)[0] == a[0]);
        assert((b + d)[0] == b[0]);
        if a[0] == b[0] {
            if a.skip(1) == b.skip(1) {
                assert(a =~= b) by {
                    assert forall|j: int| 0 <= j < a.len() implies a[j] == b[j] by {
                        if j > 0 {
                            assert(a[j] == a.skip(1)[j - 1]);
                            assert(b[j] == b.skip(1)[j - 1]);
                        }
                    }
                }
            }
            lemma_extend(a.skip(1), b.skip(1), c, d);
            assert((a + c).skip(1) =~= a.skip(1) + c);
            assert((b + d).skip(1) =~= b.skip(1) + d);
        }
        if a + c == b + d {
            assert(a =~= (a + c).take(a.len() as int));
            assert(b =~= (b + d).take(b.len() as int));
        }
    }
}

proof fn lemma_prefix(x: Seq<char>, c: Seq<char>, d: Seq<char>)
    requires
        lex_lt(c, d),
    ensures
        lex_lt(x + c, x + d),
    decreases x.len(),
{
    if x.len() == 0 {
        assert(x + c =~= c);
        assert(x + d =~= d);
    } else {
        lemma_prefix(x.skip(1), c, d);
        assert((x + c)[0] == x[0]);
        assert((x + d)[0] == x[0]);
        assert((x + c).skip(1) =~= x.skip(1) + c);
        assert((x + d).skip(1) =~= x.skip(1) + d);
        if x + c == x + d {
            assert(c =~= (x + c).skip(x.len() as int));
            assert(d =~= (x + d).skip(x.len() as int));
        }
    }
}

proof fn lemma_chain_len(fp: Seq<Seq<char>>, fq: Seq<Seq<char>>)
    requires
        fp.len() == fq.len(),
        forall|j: int| 0 <= j < fp.len() ==> (#[trigger] fp[j]).len() == fq[j].len(),
    ensures
        chain(fp).len() == chain(fq).len(),
    decreases fp.len(),
{
    if fp.len() > 0 {
        lemma_chain_len(fp.drop_last(), fq.drop_last());
    }
}

proof fn lemma_chain_lt(fp: Seq<Seq<char>>, fq: Seq<Seq<char>>, i: int)
    requires
        fp.len() == fq.len(),
        0 <= i < fp.len(),
        forall|j: int| 0 <= j < fp.len() ==> (#[trigger] fp[j]).len() == fq[j].len(),
        forall|j: int| 0 <= j < i ==> #[trigger] fp[j] == fq[j],
        lex_lt(fp[i], fq[i]),
    ensures
        lex_lt(chain(fp), chain(fq)),
    decreases fp.len(),
{
    let n = fp.len() - 1;
    if i == n {
        assert(fp.drop_last() =~= fq.drop_last()) by {
            assert forall|j: int| 0 <= j < n implies fp.drop_last()[j] == fq.drop_last()[j] by {
                assert(fp[j] == fq[j]);
            }
        }
        lemma_prefix(chain(fp.drop_last()), fp.last(), fq.last());
    } else {
        lemma_chain_lt(fp.drop_last(), fq.drop_last(), i);
        lemma_chain_len(fp.drop_last(), fq.drop_last());
        lemma_extend(chain(fp.drop_last()), chain(fq.drop_last()), fp.last(), fq.last());
    }
}

proof fn lemma_digit(d: int)
    requires
        0 <= d <= 9,
    ensures
        digit(d) as int == d + 48,
{
}

proof fn lemma_two_digits_lt(a: int, b: int)
    requires
        0 <= a < b < 100,
    ensures
        lex_lt(two_digits(a), two_digits(b)),
{
    let s = two_digits(a);
    let t = two_digits(b);
    lemma_digit(a / 10);
    lemma_digit(b / 10);
    lemma_digit(a % 10);
    lemma_digit(b % 10);
    if a / 10 < b / 10 {
        lemma_first_diff(s, t, 0);
    } else {
        lemma_first_diff(s, t, 1);
    }
}

proof fn lemma_four_digits_lt(a: int, b: int)
    requires
        0 <= a < b < 10000,
    ensures
        lex_lt(four_digits(a), four_digits(b)),
{
    let s = four_digits(a);
    let t = four_digits(b);
    lemma_digit(a / 1000);
    lemma_digit(b / 1000);
    lemma_digit(a / 100 % 10);
    lemma_digit(b / 100 % 10);
    lemma_digit(a / 10 % 10);
    lemma_digit(b / 10 % 10);
    lemma_digit(a % 10);
    lemma_digit(b % 10);
    if a / 1000 < b / 1000 {
        lemma_first_diff(s, t, 0);
    } else if a / 100 % 10 < b / 100 % 10 {
        lemma_first_diff(s, t, 1);
    } else if a / 10 % 10 < b / 10 % 10 {
        lemma_first_diff(s, t, 2);
    } else {
        lemma_first_diff(s, t, 3);
    }
}

spec fn fields_of(p: DateParts) -> Seq<Seq<char>> {
    seq![
        four_digits(p.year as int),
        seq!['_'],
        two_digits(p.month as int),
        seq!['_'],
        two_digits(p.day as int),
        seq!['_'],
        two_digits(p.hour as int),
        seq!['_'],
        two_digits(p.minute as int),
        seq!['_'],
        two_digits(p.shown_second()),
    ]
}

proof fn lemma_token_is_chain(p: DateParts)
    requires
        p.wf(),
        0 <= p.year <= 9999,
    ensures
        timestamp_text(p) == chain(fields_of(p)),
{
    let f = fields_of(p);
    reveal_with_fuel(chain, 12);
    assert(chain(f) =~= seq![] + f[0] + f[1] + f[2] + f[3] + f[4] + f[5] + f[6] + f[7] + f[8] + f[9]
        + f[10]);
    assert(seq![] + f[0] =~= f[0]);
}

/// For moments whose years have four digits, the backup name of the earlier
/// moment comes strictly first in lexical order: sorting backups by name
/// sorts them by time.
pub proof fn lemma_token_order_is_chronological(p: DateParts, q: DateParts)
    requires
        p.wf(),
        q.wf(),
        0 <= p.year <= 9999,
        0 <= q.year <= 9999,
        earlier(p, q),
    ensures
        lex_lt(timestamp_text(p), timestamp_text(q)),
{
    lemma_token_is_chain(p);
    lemma_token_is_chain(q);
    let fp = fields_of(p);
    let fq = fields_of(q);
    assert(p.shown_second() <= 60 && q.shown_second() <= 60);
    if p.year < q.year {
        lemma_four_digits_lt(p.year as int, q.year as int);
        lemma_chain_lt(fp, fq, 0);
    } else if p.month < q.month {
        lemma_two_digits_lt(p.month as int, q.month as int);
        lemma_chain_lt(fp, fq, 2);
    } else if p.day < q.day {
        lemma_two_digits_lt(p.day as int, q.day as int);
        lemma_chain_lt(fp, fq, 4);
    } else if p.hour < q.hour {
        lemma_two_digits_lt(p.hour as int, q.hour as int);
        lemma_chain_lt(fp, fq, 6);
    } else if p.minute < q.minute {
        lemma_two_digits_lt(p.minute as int, q.minute as int);
        lemma_chain_lt(fp, fq, 8);
    } else {
        lemma_two_digits_lt(p.shown_second(), q.shown_second());
        lemma_chain_lt(fp, fq, 10);
    }
}

} // verus!
