//! Collision Resolver: given a slug and the filenames already present in the
//! target directory, probe `slug.md`, `slug1.md`, `slug2.md`, ... and pick the
//! first name that is free.

use vstd::arithmetic::div_mod::lemma_fundamental_div_mod;
use vstd::prelude::*;

verus! {

/// The character standing for one decimal digit.
pub open spec fn digit_char(d: nat) -> char {
    if d == 0 {
        '0'
    } else if d == 1 {
        '1'
    } else if d == 2 {
        '2'
    } else if d == 3 {
        '3'
    } else if d == 4 {
        '4'
    } else if d == 5 {
        '5'
    } else if d == 6 {
        '6'
    } else if d == 7 {
        '7'
    } else if d == 8 {
        '8'
    } else {
        '9'
    }
}

/// Decimal digits of `n`, most significant first, without a leading zero.
pub open spec fn dec_digits(n: nat) -> Seq<char>
    decreases n,
{
    if n < 10 {
        seq![digit_char(n)]
    } else {
        dec_digits(n / 10) + seq![digit_char(n % 10)]
    }
}

/// The numeric value a digit character stands for.
pub open spec fn digit_val(c: char) -> nat {
    if c == '0' {
        0
    } else if c == '1' {
        1
    } else if c == '2' {
        2
    } else if c == '3' {
        3
    } else if c == '4' {
        4
    } else if c == '5' {
        5
    } else if c == '6' {
        6
    } else if c == '7' {
        7
    } else if c == '8' {
        8
    } else {
        9
    }
}

/// The number read back from a digit string.
pub open spec fn dec_val(s: Seq<char>) -> nat
    decreases s.len(),
{
    if s.len() == 0 {
        0
    } else {
        dec_val(s.drop_last()) * 10 + digit_val(s.last())
    }
}

proof fn lemma_dec_digits_len(n: nat)
    ensures
        dec_digits(n).len() >= 1,
    decreases n,
{
    if n >= 10 {
        lemma_dec_digits_len(n / 10);
    }
}

/// Reading the digits of `n` back gives `n`: the decimal writing is faithful.
proof fn lemma_dec_round_trip(n: nat)
    ensures
        dec_val(dec_digits(n)) == n,
    decreases n,
{
    if n < 10 {
        let s = seq![digit_char(n)];
        assert(s.drop_last() =~= Seq::<char>::empty());
        assert(dec_val(Seq::<char>::empty()) == 0);
        assert(digit_val(s.last()) == n);
    } else {
        lemma_dec_round_trip(n / 10);
        let a = dec_digits(n / 10);
        let s = a + seq![digit_char(n % 10)];
        assert(s.drop_last() =~= a);
        assert(s.last() == digit_char(n % 10));
        assert(digit_val(digit_char(n % 10)) == n % 10);
        lemma_fundamental_div_mod(n as int, 10);
    }
}

/// No two numbers write to the same digit string.
proof fn lemma_dec_digits_injective(a: nat, b: nat)
    requires
        dec_digits(a) == dec_digits(b),
    ensures
        a == b,
{
    lemma_dec_round_trip(a);
    lemma_dec_round_trip(b);
}

/// The suffix appended at probe `i`: nothing at the first probe, the decimal
/// digits of `i` afterwards.
pub open spec fn probe_suffix(i: nat) -> Seq<char> {
    if i == 0 {
        Seq::empty()
    } else {
        dec_digits(i)
    }
}

/// The markdown extension every note carries.
pub open spec fn md_ext() -> Seq<char> {
    seq!['.', 'm', 'd']
}

/// The filename probed at step `i` for a slug.
pub open spec fn candidate_name(slug: Seq<char>, i: nat) -> Seq<char> {
    slug + probe_suffix(i) + md_ext()
}

/// Distinct probe steps always yield distinct filenames.
pub proof fn lemma_candidate_injective(slug: Seq<char>, i: nat, j: nat)
    requires
        candidate_name(slug, i) == candidate_name(slug, j),
    ensures
        i == j,
{
    if i != j {
        let si = probe_suffix(i);
        let sj = probe_suffix(j);
        assert(candidate_name(slug, i).len() == slug.len() + si.len() + md_ext().len());
        assert(candidate_name(slug, j).len() == slug.len() + sj.len() + md_ext().len());
        assert(si.len() == sj.len());
        if i == 0 || j == 0 {
            lemma_dec_digits_len(if i == 0 { j } else { i });
            assert(false);
        } else {
            let di = dec_digits(i);
            let dj = dec_digits(j);
            assert(di.len() == dj.len());
            assert forall|p: int| 0 <= p < di.len() implies di[p] == dj[p] by {
                assert(candidate_name(slug, i)[slug.len() + p] == di[p]);
                assert(candidate_name(slug, j)[slug.len() + p] == dj[p]);
            }
            assert(di =~= dj);
            lemma_dec_digits_injective(i, j);
        }
    }
}

/// When every probe below `k` hits an existing filename, the directory holds
/// at least `k` files: the probed names are pairwise distinct.
proof fn lemma_all_taken_bound(names: Seq<Seq<char>>, slug: Seq<char>, k: nat)
    requires
        forall|j: nat| j < k ==> names.contains(#[trigger] candidate_name(slug, j)),
    ensures
        k <= names.len(),
    decreases k,
{
    if k > 0 {
        let last = candidate_name(slug, (k - 1) as nat);
        assert(names.contains(last));
        let p = names.index_of(last);
        assert(0 <= p < names.len() && names[p] == last);
        let rest = names.remove(p);
        names.remove_ensures(p);
        assert forall|j: nat| j < k - 1 implies rest.contains(
            #[trigger] candidate_name(slug, j),
        ) by {
            let cand = candidate_name(slug, j);
            if cand == last {
                lemma_candidate_injective(slug, j, (k - 1) as nat);
            }
            assert(names.contains(cand));
            let q = names.index_of(cand);
            assert(0 <= q < names.len() && names[q] == cand);
            if q < p {
                assert(rest[q] == cand);
            } else {
                assert(rest[q - 1] == cand);
            }
        }
        lemma_all_taken_bound(rest, slug, (k - 1) as nat);
    }
}

/// Probe `i` is the first at which the candidate filename is free.
pub open spec fn is_first_free(names: Seq<Seq<char>>, slug: Seq<char>, i: nat) -> bool {
    &&& !names.contains(candidate_name(slug, i))
    &&& forall|j: nat| j < i ==> names.contains(#[trigger] candidate_name(slug, j))
}

/// The one filename the Collision Resolver may pick for a slug over a
/// directory listing: the candidate at the first free probe.
pub open spec fn resolves_to(names: Seq<Seq<char>>, slug: Seq<char>, name: Seq<char>) -> bool {
    exists|i: nat| is_first_free(names, slug, i) && name == candidate_name(slug, i)
}

/// True when some element of `names` reads exactly `name`.
fn contains_name(names: &Vec<String>, name: &String) -> (r: bool)
    ensures
        r == names.deep_view().contains(name@),
{
    let n = names.len();
    let mut idx: usize = 0;
    while idx < n
        invariant
            idx <= n,
            n == names@.len(),
            forall|p: int| 0 <= p < idx ==> names.deep_view()[p] != name@,
        decreases n - idx,
    {
        if names[idx].eq(name) {
            proof {
                assert(names.deep_view()[idx as int] == name@);
            }
            return true;
        }
        idx += 1;
    }
    false
}

/// Append the character of one decimal digit.
fn push_digit(out: &mut String, d: u64)
    requires
        d < 10,
    ensures
        final(out)@ == old(out)@ + seq![digit_char(d as nat)],
{
    if d == 0 {
        out.append("0");
        proof {
            reveal_strlit("0");
            assert(old(out)@ + "0"@ =~= old(out)@ + seq![digit_char(0)]);
        }
    } else if d == 1 {
        out.append("1");
        proof {
            reveal_strlit("1");
            assert(old(out)@ + "1"@ =~= old(out)@ + seq![digit_char(1)]);
        }
    } else if d == 2 {
        out.append("2");
        proof {
            reveal_strlit("2");
            assert(old(out)@ + "2"@ =~= old(out)@ + seq![digit_char(2)]);
        }
    } else if d == 3 {
        out.append("3");
        proof {
            reveal_strlit("3");
            assert(old(out)@ + "3"@ =~= old(out)@ + seq![digit_char(3)]);
        }
    } else if d == 4 {
        out.append("4");
        proof {
            reveal_strlit("4");
            assert(old(out)@ + "4"@ =~= old(out)@ + seq![digit_char(4)]);
        }
    } else if d == 5 {
        out.append("5");
        proof {
            reveal_strlit("5");
            assert(old(out)@ + "5"@ =~= old(out)@ + seq![digit_char(5)]);
        }
    } else if d == 6 {
        out.append("6");
        proof {
            reveal_strlit("6");
            assert(old(out)@ + "6"@ =~= old(out)@ + seq![digit_char(6)]);
        }
    } else if d == 7 {
        out.append("7");
        proof {
            reveal_strlit("7");
            assert(old(out)@ + "7"@ =~= old(out)@ + seq![digit_char(7)]);
        }
    } else if d == 8 {
        out.append("8");
        proof {
            reveal_strlit("8");
            assert(old(out)@ + "8"@ =~= old(out)@ + seq![digit_char(8)]);
        }
    } else {
        out.append("9");
        proof {
            reveal_strlit("9");
            assert(old(out)@ + "9"@ =~= old(out)@ + seq![digit_char(9)]);
        }
    }
}

/// Append the decimal digits of `n`.
fn push_dec(out: &mut String, n: u64)
    ensures
        final(out)@ == old(out)@ + dec_digits(n as nat),
    decreases n,
{
    if n < 10 {
        push_digit(out, n);
    } else {
        push_dec(out, n / 10);
        push_digit(out, n % 10);
        proof {
            assert((old(out)@ + dec_digits((n / 10) as nat)) + seq![
                digit_char((n % 10) as nat),
            ] =~= old(out)@ + dec_digits(n as nat));
        }
    }
}

/// Build the filename probed at step `i`: the slug, the probe suffix, `.md`.
fn candidate_string(slug: &str, i: u64) -> (r: String)
    ensures
        r@ == candidate_name(slug@, i as nat),
{
    let mut s = slug.to_owned();
    if i > 0 {
        push_dec(&mut s, i);
    }
    s.append(".md");
    proof {
        reveal_strlit(".md");
        assert(".md"@ =~= md_ext());
        if i == 0 {
            assert(s@ =~= slug@ + probe_suffix(0) + md_ext());
        } else {
            assert(s@ =~= slug@ + probe_suffix(i as nat) + md_ext());
        }
    }
    s
}

/// Probe `slug.md`, `slug1.md`, `slug2.md`, ... against the directory's
/// filenames and return the first that is absent. The loop terminates because
/// the probed names are pairwise distinct while the directory is finite.
pub fn resolve_destination(names: &Vec<String>, slug: &str) -> (r: String)
    ensures
        resolves_to(names.deep_view(), slug@, r@),
{
    let ghost ns = names.deep_view();
    let n = names.len();
    let mut i: usize = 0;
    loop
        invariant
            i <= n,
            n == names@.len(),
            ns == names.deep_view(),
            ns.len() == names@.len(),
            forall|j: nat| j < i ==> ns.contains(#[trigger] candidate_name(slug@, j)),
        decreases n - i,
    {
        let cand = candidate_string(slug, i as u64);
        if !contains_name(names, &cand) {
            proof {
                assert(is_first_free(ns, slug@, i as nat));
            }
            return cand;
        }
        proof {
            assert(ns.contains(candidate_name(slug@, i as nat)));
            assert forall|j: nat| j < i + 1 implies ns.contains(
                #[trigger] candidate_name(slug@, j),
            ) by {
                if j >= i {
                    assert(j == i);
                }
            }
            lemma_all_taken_bound(ns, slug@, (i + 1) as nat);
            assert(i + 1 <= ns.len());
        }
        i = i + 1;
    }
}

/// The resolved name never clashes with a file already present.
pub proof fn lemma_resolved_is_free(names: Seq<Seq<char>>, slug: Seq<char>, name: Seq<char>)
    requires
        resolves_to(names, slug, name),
    ensures
        !names.contains(name),
{
}

/// Resolution is deterministic: over one directory listing and one slug, any
/// two resolved names agree.
pub proof fn lemma_resolution_deterministic(
    names: Seq<Seq<char>>,
    slug: Seq<char>,
    n1: Seq<char>,
    n2: Seq<char>,
)
    requires
        resolves_to(names, slug, n1),
        resolves_to(names, slug, n2),
    ensures
        n1 == n2,
{
    let i1 = choose|i: nat| is_first_free(names, slug, i) && n1 == candidate_name(slug, i);
    let i2 = choose|i: nat| is_first_free(names, slug, i) && n2 == candidate_name(slug, i);
    if i1 < i2 {
        assert(names.contains(candidate_name(slug, i1)));
    } else if i2 < i1 {
        assert(names.contains(candidate_name(slug, i2)));
    }
}

/// In an empty directory every slug resolves to `slug.md`, with no suffix.
pub proof fn lemma_empty_dir_no_suffix(slug: Seq<char>, name: Seq<char>)
    requires
        resolves_to(Seq::empty(), slug, name),
    ensures
        name == slug + md_ext(),
{
    let i = choose|i: nat|
        is_first_free(Seq::empty(), slug, i) && name == candidate_name(slug, i);
    if i > 0 {
        assert(Seq::<Seq<char>>::empty().contains(candidate_name(slug, 0)));
    }
    assert(slug + probe_suffix(0) + md_ext() =~= slug + md_ext());
}

/// With the first three probes taken and the fourth free — as with `note.md`,
/// `note1.md`, `note2.md` present — the resolver picks the fourth name.
pub proof fn lemma_three_collisions(names: Seq<Seq<char>>, slug: Seq<char>, name: Seq<char>)
    requires
        names.contains(candidate_name(slug, 0)),
        names.contains(candidate_name(slug, 1)),
        names.contains(candidate_name(slug, 2)),
        !names.contains(candidate_name(slug, 3)),
        resolves_to(names, slug, name),
    ensures
        name == candidate_name(slug, 3),
{
    let i = choose|i: nat| is_first_free(names, slug, i) && name == candidate_name(slug, i);
    if i > 3 {
        assert(names.contains(candidate_name(slug, 3)));
    }
}

} // verus!
