//! The installation fingerprint: a cheap, order-independent digest of the
//! `apps` directory used as the cache-validity token. It has the shape
//! `<count>|<entries>` where the entries are `name:stamp` pairs, names
//! ASCII-lowercased, sorted lexicographically and joined with `;`.

use vstd::prelude::*;
use vstd::multiset::Multiset;
use vstd::relations::sorted_by;
use vstd::seq_lib::group_to_multiset_ensures;
use vstd::seq_lib::lemma_sorted_unique;
use crate::dirstate::{dir_models, dir_stamp, spec_dir_stamp, PackageDirModel, PackageDirState};
use crate::text::{
    chars_to_string, chars_leq, dec_digits, dec_u64, join_semi, join_with_semi,
    lemma_dec_digits_injective, lemma_dec_digits_range, lex_leq, lex_leq_fn, lower_ascii_chars,
    lower_char, lower_chars, seq_views,
};

verus! {

/// The fingerprint entry of one package directory: `name:stamp` with the name
/// lowercased; nothing for a directory whose name cannot be decoded.
pub open spec fn spec_entry(d: PackageDirModel) -> Option<Seq<char>> {
    match d.name {
        Option::Some(n) => Option::Some(lower_chars(n) + seq![':'] + dec_digits(spec_dir_stamp(d) as nat)),
        Option::None => Option::None,
    }
}

/// The fingerprint entries of a directory listing, in listing order.
pub open spec fn spec_entries(dirs: Seq<PackageDirModel>) -> Seq<Seq<char>>
    decreases dirs.len(),
{
    if dirs.len() == 0 {
        Seq::empty()
    } else {
        match spec_entry(dirs[0]) {
            Option::Some(e) => seq![e] + spec_entries(dirs.drop_first()),
            Option::None => spec_entries(dirs.drop_first()),
        }
    }
}

/// Appending one directory appends its entry, if it has one.
proof fn lemma_spec_entries_push(s: Seq<PackageDirModel>, d: PackageDirModel)
    ensures
        spec_entries(s.push(d)) == spec_entries(s) + match spec_entry(d) {
            Option::Some(e) => seq![e],
            Option::None => Seq::<Seq<char>>::empty(),
        },
    decreases s.len(),
{
    let tail: Seq<Seq<char>> = match spec_entry(d) {
        Option::Some(e) => seq![e],
        Option::None => Seq::empty(),
    };
    if s.len() == 0 {
        assert(s.push(d)[0] == d);
        assert(s.push(d).drop_first() =~= s);
        assert(spec_entries(s) =~= Seq::<Seq<char>>::empty());
        match spec_entry(d) {
            Option::Some(e) => {
                assert(spec_entries(s.push(d)) == seq![e] + spec_entries(s));
                assert(seq![e] + spec_entries(s) =~= tail);
            },
            Option::None => {
                assert(spec_entries(s.push(d)) == spec_entries(s));
            },
        }
        assert(spec_entries(s) + tail =~= tail);
    } else {
        lemma_spec_entries_push(s.drop_first(), d);
        assert(s.push(d).drop_first() =~= s.drop_first().push(d));
        assert(s.push(d)[0] == s[0]);
        match spec_entry(s[0]) {
            Option::Some(e) => {
                assert(seq![e] + (spec_entries(s.drop_first()) + tail) =~= (seq![e]
                    + spec_entries(s.drop_first())) + tail);
            },
            Option::None => {},
        }
    }
}

/// The fingerprint of a directory listing.
pub open spec fn spec_fingerprint(dirs: Seq<PackageDirModel>) -> Seq<char> {
    dec_digits(dirs.len() as nat) + seq!['|'] + join_semi(
        spec_entries(dirs).sort_by(lex_leq_fn()),
    )
}

/// The fingerprint entries of `dirs`, in listing order.
fn build_entries(dirs: &Vec<PackageDirState>) -> (r: Vec<Vec<char>>)
    ensures
        seq_views(r@) == spec_entries(dir_models(dirs@)),
{
    let mut out: Vec<Vec<char>> = Vec::new();
    let mut i: usize = 0;
    while i < dirs.len()
        invariant
            i <= dirs@.len(),
            seq_views(out@) == spec_entries(dir_models(dirs@.subrange(0, i as int))),
        decreases dirs@.len() - i,
    {
        let ghost prefix = dir_models(dirs@.subrange(0, i as int));
        let d = &dirs[i];
        match d.name {
            Option::Some(ref n) => {
                let mut e = lower_ascii_chars(n.as_str());
                e.push(':');
                let mut digits = dec_u64(dir_stamp(d));
                e.append(&mut digits);
                proof {
                    assert(e@ =~= lower_chars(n@) + seq![':'] + dec_digits(
                        spec_dir_stamp(d@) as nat,
                    ));
                    assert(spec_entry(d@) == Option::Some(e@));
                }
                let ghost before = seq_views(out@);
                out.push(e);
                proof {
                    lemma_spec_entries_push(prefix, d@);
                    assert(dir_models(dirs@.subrange(0, i + 1)) =~= prefix.push(d@));
                    assert(seq_views(out@) =~= before.push(e@));
                    assert(before.push(e@) =~= before + seq![e@]);
                }
            },
            Option::None => {
                proof {
                    lemma_spec_entries_push(prefix, d@);
                    assert(dir_models(dirs@.subrange(0, i + 1)) =~= prefix.push(d@));
                    assert(spec_entries(prefix) + Seq::<Seq<char>>::empty() =~= spec_entries(
                        prefix,
                    ));
                }
            },
        }
        i = i + 1;
    }
    proof {
        assert(dirs@.subrange(0, dirs@.len() as int) =~= dirs@);
    }
    out
}

/// Inserting into a sequence inserts into its multiset.
proof fn lemma_to_multiset_insert<A>(s: Seq<A>, p: int, x: A)
    requires
        0 <= p <= s.len(),
    ensures
        s.insert(p, x).to_multiset() == s.to_multiset().insert(x),
{
    broadcast use group_to_multiset_ensures;

    let t = s.insert(p, x);
    assert(t.remove(p) =~= s);
    assert(t[p] == x);
    assert(t.remove(p).to_multiset() =~= t.to_multiset().remove(x));
    assert(t.to_multiset().contains(x)) by {
        assert(t.contains(x));
    }
    assert(t.to_multiset() =~= s.to_multiset().insert(x)) by {
        assert(t.to_multiset().remove(x).insert(x) =~= t.to_multiset());
    }
}

/// Inserts `x` into the sorted vector `out`, keeping it sorted.
fn insert_sorted(out: &mut Vec<Vec<char>>, x: Vec<char>)
    requires
        sorted_by(seq_views(old(out)@), lex_leq_fn()),
    ensures
        sorted_by(seq_views(final(out)@), lex_leq_fn()),
        seq_views(final(out)@).to_multiset() == seq_views(old(out)@).to_multiset().insert(x@),
{
    let ghost vs = seq_views(out@);
    let mut p: usize = 0;
    while p < out.len() && chars_leq(&out[p], &x)
        invariant
            p <= out@.len(),
            out@ == old(out)@,
            forall|k: int| 0 <= k < p ==> lex_leq(#[trigger] seq_views(out@)[k], x@),
        decreases out@.len() - p,
    {
        p = p + 1;
    }
    proof {
        if p < out@.len() {
            assert(!lex_leq(vs[p as int], x@));
            crate::text::lemma_lex_leq_connected(vs[p as int], x@);
            assert(lex_leq(x@, vs[p as int]));
            assert forall|k: int| p <= k < vs.len() implies lex_leq(x@, #[trigger] vs[k]) by {
                if k > p {
                    assert(lex_leq_fn()(vs[p as int], vs[k]));
                    crate::text::lemma_lex_leq_transitive(x@, vs[p as int], vs[k]);
                }
            }
        }
    }
    let ghost pi = p as int;
    out.insert(p, x);
    proof {
        let nvs = seq_views(out@);
        assert(nvs =~= vs.insert(pi, x@));
        assert forall|i: int, j: int| 0 <= i < j < nvs.len() implies lex_leq_fn()(
            nvs[i],
            nvs[j],
        ) by {
            if j < pi {
                assert(nvs[i] == vs[i] && nvs[j] == vs[j]);
                assert(lex_leq_fn()(vs[i], vs[j]));
            } else if i > pi {
                assert(nvs[i] == vs[i - 1] && nvs[j] == vs[j - 1]);
                assert(lex_leq_fn()(vs[i - 1], vs[j - 1]));
            } else if i < pi && j == pi {
                assert(nvs[i] == vs[i] && nvs[j] == x@);
                assert(lex_leq(vs[i], x@));
            } else if i < pi && j > pi {
                assert(nvs[i] == vs[i] && nvs[j] == vs[j - 1]);
                if pi < vs.len() {
                    assert(lex_leq(vs[i], x@));
                    if j - 1 == pi {
                        crate::text::lemma_lex_leq_transitive(vs[i], x@, vs[j - 1]);
                    } else {
                        assert(lex_leq_fn()(vs[i], vs[j - 1]));
                    }
                } else {
                    assert(lex_leq_fn()(vs[i], vs[j - 1]));
                }
            } else if i == pi && j > pi {
                assert(nvs[i] == x@ && nvs[j] == vs[j - 1]);
                assert(lex_leq(x@, vs[j - 1]));
            }
        }
        lemma_to_multiset_insert(vs, pi, x@);
    }
}

/// Sorts the entries lexicographically; the result is the canonical sorted
/// arrangement of the input's multiset of entries.
fn sort_entries(src: Vec<Vec<char>>) -> (r: Vec<Vec<char>>)
    ensures
        seq_views(r@) == seq_views(src@).sort_by(lex_leq_fn()),
{
    broadcast use group_to_multiset_ensures;

    let ghost orig = seq_views(src@);
    let mut cur = src;
    let mut out: Vec<Vec<char>> = Vec::new();
    proof {
        assert(seq_views(out@) =~= Seq::<Seq<char>>::empty());
        assert(seq_views(out@).to_multiset().add(seq_views(cur@).to_multiset()) =~= seq_views(
            cur@,
        ).to_multiset());
    }
    while cur.len() > 0
        invariant
            sorted_by(seq_views(out@), lex_leq_fn()),
            seq_views(out@).to_multiset().add(seq_views(cur@).to_multiset())
                == orig.to_multiset(),
        decreases cur@.len(),
    {
        let ghost cvs = seq_views(cur@);
        let x = cur.pop().unwrap();
        proof {
            broadcast use group_to_multiset_ensures;

            assert(cvs.drop_last().push(x@) =~= cvs);
            assert(seq_views(cur@) =~= cvs.drop_last());
            assert(cvs.drop_last().push(x@).to_multiset() =~= cvs.drop_last().to_multiset().insert(
                x@,
            ));
            assert(cvs.to_multiset() =~= cvs.drop_last().to_multiset().insert(x@));
        }
        insert_sorted(&mut out, x);
        proof {
            assert(seq_views(out@).to_multiset().add(seq_views(cur@).to_multiset())
                =~= orig.to_multiset());
        }
    }
    proof {
        broadcast use group_to_multiset_ensures;

        let cvs = seq_views(cur@);
        assert(cvs =~= Seq::<Seq<char>>::empty());
        assert forall|e: Seq<char>| cvs.to_multiset().count(e) == 0 by {
            assert(!cvs.contains(e));
        }
        assert(cvs.to_multiset() =~= Multiset::<Seq<char>>::empty());
        assert(seq_views(out@).to_multiset().add(Multiset::empty()) =~= seq_views(
            out@,
        ).to_multiset());
        crate::text::lemma_lex_leq_total_ordering();
        orig.lemma_sort_by_ensures(lex_leq_fn());
        lemma_sorted_unique(seq_views(out@), orig.sort_by(lex_leq_fn()), lex_leq_fn());
    }
    out
}

/// Removing one directory removes its entry, if it has one, from the
/// multiset of entries.
proof fn lemma_entries_remove(s: Seq<PackageDirModel>, j: int)
    requires
        0 <= j < s.len(),
    ensures
        spec_entries(s).to_multiset() == match spec_entry(s[j]) {
            Option::Some(e) => spec_entries(s.remove(j)).to_multiset().insert(e),
            Option::None => spec_entries(s.remove(j)).to_multiset(),
        },
    decreases j,
{
    broadcast use group_to_multiset_ensures;
    broadcast use vstd::multiset::group_multiset_axioms;

    if j == 0 {
        assert(s.remove(0) =~= s.drop_first());
        match spec_entry(s[0]) {
            Option::Some(e) => {
                let rest = spec_entries(s.drop_first());
                assert(spec_entries(s) == seq![e] + rest);
                vstd::seq_lib::lemma_multiset_commutative(seq![e], rest);
                assert(Seq::<Seq<char>>::empty().push(e) =~= seq![e]);
                assert(Seq::<Seq<char>>::empty().push(e).to_multiset() =~= Seq::<
                    Seq<char>,
                >::empty().to_multiset().insert(e));
                assert forall|q: Seq<char>| Seq::<Seq<char>>::empty().to_multiset().count(q)
                    == 0 by {
                    assert(!Seq::<Seq<char>>::empty().contains(q));
                }
                assert(Seq::<Seq<char>>::empty().to_multiset() =~= Multiset::<Seq<char>>::empty());
                assert(seq![e].to_multiset() =~= Multiset::<Seq<char>>::empty().insert(e));
                assert(spec_entries(s).to_multiset() =~= rest.to_multiset().insert(e));
            },
            Option::None => {
                assert(spec_entries(s) == spec_entries(s.drop_first()));
            },
        }
    } else {
        lemma_entries_remove(s.drop_first(), j - 1);
        assert(s.remove(j).drop_first() =~= s.drop_first().remove(j - 1));
        assert(s.remove(j)[0] == s[0]);
        assert(s.drop_first()[j - 1] == s[j]);
        let restfull = spec_entries(s.drop_first());
        let restless = spec_entries(s.drop_first().remove(j - 1));
        match spec_entry(s[0]) {
            Option::Some(e0) => {
                assert(spec_entries(s) == seq![e0] + restfull);
                assert(spec_entries(s.remove(j)) == seq![e0] + restless);
                vstd::seq_lib::lemma_multiset_commutative(seq![e0], restfull);
                vstd::seq_lib::lemma_multiset_commutative(seq![e0], restless);
                match spec_entry(s[j]) {
                    Option::Some(e) => {
                        assert(restfull.to_multiset() =~= restless.to_multiset().insert(e));
                        assert(spec_entries(s).to_multiset() =~= spec_entries(
                            s.remove(j),
                        ).to_multiset().insert(e));
                    },
                    Option::None => {
                        assert(restfull.to_multiset() =~= restless.to_multiset());
                        assert(spec_entries(s).to_multiset() =~= spec_entries(
                            s.remove(j),
                        ).to_multiset());
                    },
                }
            },
            Option::None => {
                assert(spec_entries(s) == restfull);
                assert(spec_entries(s.remove(j)) == restless);
            },
        }
    }
}

/// Listings with the same directories, in any order, have the same multiset
/// of fingerprint entries.
proof fn lemma_entries_multiset(a: Seq<PackageDirModel>, b: Seq<PackageDirModel>)
    requires
        a.to_multiset() == b.to_multiset(),
    ensures
        spec_entries(a).to_multiset() == spec_entries(b).to_multiset(),
    decreases a.len(),
{
    broadcast use group_to_multiset_ensures;
    broadcast use vstd::multiset::group_multiset_axioms;

    if a.len() == 0 {
        assert(b.to_multiset().len() == 0);
        assert(b.len() == 0);
        assert(spec_entries(a) == spec_entries(b));
    } else {
        let x = a[0];
        assert(a.contains(x));
        assert(a.to_multiset().count(x) > 0);
        assert(b.to_multiset().count(x) > 0);
        assert(b.contains(x));
        let j = choose|j: int| 0 <= j < b.len() && b[j] == x;
        assert(a.remove(0) =~= a.drop_first());
        assert(a.remove(0).to_multiset() =~= a.to_multiset().remove(x));
        assert(b.remove(j).to_multiset() =~= b.to_multiset().remove(x));
        lemma_entries_multiset(a.drop_first(), b.remove(j));
        lemma_entries_remove(a, 0);
        lemma_entries_remove(b, j);
    }
}

/// Law: the fingerprint does not depend on the order in which the package
/// directories were enumerated — two listings holding the same directories
/// yield the same fingerprint text.
pub proof fn lemma_fingerprint_order_independent(
    a: Seq<PackageDirModel>,
    b: Seq<PackageDirModel>,
)
    requires
        a.to_multiset() == b.to_multiset(),
    ensures
        spec_fingerprint(a) == spec_fingerprint(b),
{
    broadcast use group_to_multiset_ensures;

    assert(a.len() == a.to_multiset().len());
    assert(b.len() == b.to_multiset().len());
    lemma_entries_multiset(a, b);
    let ea = spec_entries(a);
    let eb = spec_entries(b);
    crate::text::lemma_lex_leq_total_ordering();
    ea.lemma_sort_by_ensures(lex_leq_fn());
    eb.lemma_sort_by_ensures(lex_leq_fn());
    lemma_sorted_unique(ea.sort_by(lex_leq_fn()), eb.sort_by(lex_leq_fn()), lex_leq_fn());
    assert(ea.sort_by(lex_leq_fn()) == eb.sort_by(lex_leq_fn()));
}

/// A name that cannot collide with the fingerprint's separators: free of `;`
/// and `:`. (`:` cannot occur in a directory name on the filesystems this
/// tree lives on; `;` is legal there but would alias the entry separator.)
pub open spec fn dir_name_clean(d: PackageDirModel) -> bool {
    match d.name {
        Option::Some(n) => forall|i: int| 0 <= i < n.len() ==> n[i] != ';' && n[i] != ':',
        Option::None => true,
    }
}

/// Every directory name of the listing is separator-free.
pub open spec fn dirs_clean(dirs: Seq<PackageDirModel>) -> bool {
    forall|k: int| 0 <= k < dirs.len() ==> dir_name_clean(#[trigger] dirs[k])
}

/// A usable join part: nonempty and free of the separator.
pub open spec fn part_ok(p: Seq<char>) -> bool {
    p.len() > 0 && forall|i: int| 0 <= i < p.len() ==> p[i] != ';'
}

/// With separator-free names, every fingerprint entry is a usable join part.
proof fn lemma_entries_parts(s: Seq<PackageDirModel>)
    requires
        dirs_clean(s),
    ensures
        forall|i: int|
            0 <= i < spec_entries(s).len() ==> part_ok(#[trigger] spec_entries(s)[i]),
    decreases s.len(),
{
    if s.len() > 0 {
        assert forall|k: int| 0 <= k < s.drop_first().len() implies dir_name_clean(
            #[trigger] s.drop_first()[k],
        ) by {
            assert(s.drop_first()[k] == s[k + 1]);
        }
        lemma_entries_parts(s.drop_first());
        let rest = spec_entries(s.drop_first());
        match spec_entry(s[0]) {
            Option::Some(e) => {
                let n = s[0].name->Some_0;
                let stamp = spec_dir_stamp(s[0]) as nat;
                assert(e == lower_chars(n) + seq![':'] + dec_digits(stamp));
                lemma_dec_digits_range(stamp);
                assert(part_ok(e)) by {
                    assert(e.len() == lower_chars(n).len() + 1 + dec_digits(stamp).len());
                    assert forall|i: int| 0 <= i < e.len() implies e[i] != ';' by {
                        let ln = lower_chars(n).len() as int;
                        if i < ln {
                            assert(e[i] == lower_char(n[i]));
                            assert(n[i] != ';');
                            assert(lower_char(n[i]) != ';');
                        } else if i == ln {
                            assert(e[i] == ':');
                        } else {
                            assert(e[i] == dec_digits(stamp)[i - ln - 1]);
                            assert(48 <= e[i] as int <= 57);
                        }
                    }
                }
                assert(spec_entries(s) == seq![e] + rest);
                assert forall|i: int| 0 <= i < spec_entries(s).len() implies part_ok(
                    #[trigger] spec_entries(s)[i],
                ) by {
                    if i == 0 {
                        assert(spec_entries(s)[0] == e);
                    } else {
                        assert(spec_entries(s)[i] == rest[i - 1]);
                    }
                }
            },
            Option::None => {
                assert(spec_entries(s) == rest);
            },
        }
    }
}

/// Joining usable parts is injective: equal joins come from equal part lists.
proof fn lemma_join_injective(x: Seq<Seq<char>>, y: Seq<Seq<char>>)
    requires
        forall|i: int| 0 <= i < x.len() ==> part_ok(#[trigger] x[i]),
        forall|i: int| 0 <= i < y.len() ==> part_ok(#[trigger] y[i]),
        join_semi(x) == join_semi(y),
    ensures
        x == y,
    decreases x.len() + y.len(),
{
    let jx = join_semi(x);
    let jy = join_semi(y);
    if x.len() == 0 {
        assert(jx.len() == 0);
        if y.len() == 1 {
            assert(jy == y[0]);
            assert(part_ok(y[0]));
            assert(false);
        } else if y.len() >= 2 {
            assert(jy == y[0] + seq![';'] + join_semi(y.drop_first()));
            assert(jy.len() >= y[0].len() + 1);
            assert(part_ok(y[0]));
            assert(false);
        }
        assert(x =~= y);
    } else if y.len() == 0 {
        assert(jy.len() == 0);
        if x.len() == 1 {
            assert(jx == x[0]);
            assert(part_ok(x[0]));
            assert(false);
        } else {
            assert(jx == x[0] + seq![';'] + join_semi(x.drop_first()));
            assert(jx.len() >= x[0].len() + 1);
            assert(part_ok(x[0]));
            assert(false);
        }
    } else if x.len() == 1 && y.len() == 1 {
        assert(jx == x[0] && jy == y[0]);
        assert(x =~= y);
    } else if x.len() == 1 {
        assert(jx == x[0]);
        assert(jy == y[0] + seq![';'] + join_semi(y.drop_first()));
        let ly = y[0].len() as int;
        assert(jy[ly] == ';');
        assert(ly < jx.len());
        assert(jx[ly] != ';') by {
            assert(part_ok(x[0]));
        }
        assert(false);
    } else if y.len() == 1 {
        assert(jy == y[0]);
        assert(jx == x[0] + seq![';'] + join_semi(x.drop_first()));
        let lx = x[0].len() as int;
        assert(jx[lx] == ';');
        assert(lx < jy.len());
        assert(jy[lx] != ';') by {
            assert(part_ok(y[0]));
        }
        assert(false);
    } else {
        assert(jx == x[0] + seq![';'] + join_semi(x.drop_first()));
        assert(jy == y[0] + seq![';'] + join_semi(y.drop_first()));
        let lx = x[0].len() as int;
        let ly = y[0].len() as int;
        if lx < ly {
            assert(jx[lx] == ';');
            assert(jy[lx] == y[0][lx]);
            assert(part_ok(y[0]));
            assert(false);
        }
        if ly < lx {
            assert(jy[ly] == ';');
            assert(jx[ly] == x[0][ly]);
            assert(part_ok(x[0]));
            assert(false);
        }
        assert(lx == ly);
        assert(x[0] =~= y[0]) by {
            assert forall|i: int| 0 <= i < lx implies x[0][i] == y[0][i] by {
                assert(jx[i] == x[0][i]);
                assert(jy[i] == y[0][i]);
            }
        }
        let rx = join_semi(x.drop_first());
        let ry = join_semi(y.drop_first());
        assert(rx =~= ry) by {
            assert(jx.len() == lx + 1 + rx.len());
            assert(jy.len() == ly + 1 + ry.len());
            assert forall|i: int| 0 <= i < rx.len() implies rx[i] == ry[i] by {
                assert(jx[lx + 1 + i] == rx[i]);
                assert(jy[ly + 1 + i] == ry[i]);
            }
        }
        assert forall|i: int| 0 <= i < x.drop_first().len() implies part_ok(
            #[trigger] x.drop_first()[i],
        ) by {
            assert(x.drop_first()[i] == x[i + 1]);
        }
        assert forall|i: int| 0 <= i < y.drop_first().len() implies part_ok(
            #[trigger] y.drop_first()[i],
        ) by {
            assert(y.drop_first()[i] == y[i + 1]);
        }
        lemma_join_injective(x.drop_first(), y.drop_first());
        assert(x =~= y) by {
            assert forall|i: int| 0 <= i < x.len() implies x[i] == y[i] by {
                if i > 0 {
                    assert(x.drop_first()[i - 1] == x[i]);
                    assert(y.drop_first()[i - 1] == y[i]);
                }
            }
        }
    }
}

/// Equal fingerprints split into an equal count and an equal joined entry
/// text.
proof fn lemma_fingerprint_splits(a: Seq<PackageDirModel>, b: Seq<PackageDirModel>)
    requires
        spec_fingerprint(a) == spec_fingerprint(b),
    ensures
        a.len() == b.len(),
        join_semi(spec_entries(a).sort_by(lex_leq_fn())) == join_semi(
            spec_entries(b).sort_by(lex_leq_fn()),
        ),
{
    let da = dec_digits(a.len() as nat);
    let db = dec_digits(b.len() as nat);
    let ja = join_semi(spec_entries(a).sort_by(lex_leq_fn()));
    let jb = join_semi(spec_entries(b).sort_by(lex_leq_fn()));
    let fa = spec_fingerprint(a);
    let fb = spec_fingerprint(b);
    assert(fa == da + seq!['|'] + ja);
    assert(fb == db + seq!['|'] + jb);
    lemma_dec_digits_range(a.len() as nat);
    lemma_dec_digits_range(b.len() as nat);
    if da.len() < db.len() {
        assert(fa[da.len() as int] == '|');
        assert(fb[da.len() as int] == db[da.len() as int]);
        assert(48 <= db[da.len() as int] as int <= 57);
        assert('|' as int == 124);
        assert(false);
    }
    if db.len() < da.len() {
        assert(fb[db.len() as int] == '|');
        assert(fa[db.len() as int] == da[db.len() as int]);
        assert(48 <= da[db.len() as int] as int <= 57);
        assert('|' as int == 124);
        assert(false);
    }
    assert(da =~= db) by {
        assert forall|i: int| 0 <= i < da.len() implies da[i] == db[i] by {
            assert(fa[i] == da[i]);
            assert(fb[i] == db[i]);
        }
    }
    lemma_dec_digits_injective(a.len() as nat, b.len() as nat);
    assert(ja =~= jb) by {
        assert(fa.len() == da.len() + 1 + ja.len());
        assert(fb.len() == db.len() + 1 + jb.len());
        assert forall|i: int| 0 <= i < ja.len() implies ja[i] == jb[i] by {
            assert(fa[da.len() + 1 + i] == ja[i]);
            assert(fb[db.len() + 1 + i] == jb[i]);
        }
    }
}

/// Law: adding or removing a package directory changes the fingerprint — two
/// listings of different sizes never share one.
pub proof fn lemma_fingerprint_detects_count_change(
    a: Seq<PackageDirModel>,
    b: Seq<PackageDirModel>,
)
    requires
        a.len() != b.len(),
    ensures
        spec_fingerprint(a) != spec_fingerprint(b),
{
    if spec_fingerprint(a) == spec_fingerprint(b) {
        lemma_fingerprint_splits(a, b);
        assert(false);
    }
}

/// Law: for separator-free directory names the fingerprint is complete — equal
/// fingerprints force the same directory count and the same multiset of
/// `name:stamp` entries, so any change to the entries (a new stamp, a renamed
/// or replaced directory) changes the fingerprint.
pub proof fn lemma_fingerprint_entries(a: Seq<PackageDirModel>, b: Seq<PackageDirModel>)
    requires
        dirs_clean(a),
        dirs_clean(b),
        spec_fingerprint(a) == spec_fingerprint(b),
    ensures
        a.len() == b.len(),
        spec_entries(a).to_multiset() == spec_entries(b).to_multiset(),
{
    broadcast use group_to_multiset_ensures;

    lemma_fingerprint_splits(a, b);
    crate::text::lemma_lex_leq_total_ordering();
    let ea = spec_entries(a);
    let eb = spec_entries(b);
    let sa = ea.sort_by(lex_leq_fn());
    let sb = eb.sort_by(lex_leq_fn());
    ea.lemma_sort_by_ensures(lex_leq_fn());
    eb.lemma_sort_by_ensures(lex_leq_fn());
    lemma_entries_parts(a);
    lemma_entries_parts(b);
    assert forall|i: int| 0 <= i < sa.len() implies part_ok(#[trigger] sa[i]) by {
        assert(sa.contains(sa[i]));
        assert(sa.to_multiset().count(sa[i]) > 0);
        assert(ea.to_multiset().count(sa[i]) > 0);
        assert(ea.contains(sa[i]));
        let j = choose|j: int| 0 <= j < ea.len() && ea[j] == sa[i];
        assert(part_ok(ea[j]));
    }
    assert forall|i: int| 0 <= i < sb.len() implies part_ok(#[trigger] sb[i]) by {
        assert(sb.contains(sb[i]));
        assert(sb.to_multiset().count(sb[i]) > 0);
        assert(eb.to_multiset().count(sb[i]) > 0);
        assert(eb.contains(sb[i]));
        let j = choose|j: int| 0 <= j < eb.len() && eb[j] == sb[i];
        assert(part_ok(eb[j]));
    }
    lemma_join_injective(sa, sb);
    assert(ea.to_multiset() == sa.to_multiset());
    assert(eb.to_multiset() == sb.to_multiset());
}

/// Equal entries of separator-free names come from the same lowered name and
/// the same stamp.
proof fn lemma_entry_splits(d1: PackageDirModel, d2: PackageDirModel)
    requires
        dir_name_clean(d1),
        dir_name_clean(d2),
        spec_entry(d1) is Some,
        spec_entry(d1) == spec_entry(d2),
    ensures
        lower_chars(d1.name->Some_0) == lower_chars(d2.name->Some_0),
        spec_dir_stamp(d1) == spec_dir_stamp(d2),
{
    let n1 = d1.name->Some_0;
    let n2 = d2.name->Some_0;
    let l1 = lower_chars(n1);
    let l2 = lower_chars(n2);
    let s1 = spec_dir_stamp(d1) as nat;
    let s2 = spec_dir_stamp(d2) as nat;
    let e = spec_entry(d1)->Some_0;
    assert(e == l1 + seq![':'] + dec_digits(s1));
    assert(e == l2 + seq![':'] + dec_digits(s2));
    assert forall|i: int| 0 <= i < l1.len() implies l1[i] != ':' by {
        assert(l1[i] == lower_char(n1[i]));
        assert(n1[i] != ':');
    }
    assert forall|i: int| 0 <= i < l2.len() implies l2[i] != ':' by {
        assert(l2[i] == lower_char(n2[i]));
        assert(n2[i] != ':');
    }
    if l1.len() < l2.len() {
        assert(e[l1.len() as int] == ':');
        assert(e[l1.len() as int] == l2[l1.len() as int]);
        assert(false);
    }
    if l2.len() < l1.len() {
        assert(e[l2.len() as int] == ':');
        assert(e[l2.len() as int] == l1[l2.len() as int]);
        assert(false);
    }
    assert(l1 =~= l2) by {
        assert forall|i: int| 0 <= i < l1.len() implies l1[i] == l2[i] by {
            assert(e[i] == l1[i]);
            assert(e[i] == l2[i]);
        }
    }
    assert(dec_digits(s1) =~= dec_digits(s2)) by {
        assert(e.len() == l1.len() + 1 + dec_digits(s1).len());
        assert(e.len() == l2.len() + 1 + dec_digits(s2).len());
        assert forall|i: int| 0 <= i < dec_digits(s1).len() implies dec_digits(s1)[i]
            == dec_digits(s2)[i] by {
            assert(e[l1.len() + 1 + i] == dec_digits(s1)[i]);
            assert(e[l2.len() + 1 + i] == dec_digits(s2)[i]);
        }
    }
    lemma_dec_digits_injective(s1, s2);
}

/// A directory with an entry contributes it to the entry list.
proof fn lemma_entries_contains(s: Seq<PackageDirModel>, j: int)
    requires
        0 <= j < s.len(),
        spec_entry(s[j]) is Some,
    ensures
        spec_entries(s).contains(spec_entry(s[j])->Some_0),
    decreases j,
{
    let e = spec_entry(s[j])->Some_0;
    if j == 0 {
        assert(spec_entries(s)[0] == e);
    } else {
        lemma_entries_contains(s.drop_first(), j - 1);
        assert(s.drop_first()[j - 1] == s[j]);
        let rest = spec_entries(s.drop_first());
        let i = choose|i: int| 0 <= i < rest.len() && rest[i] == e;
        match spec_entry(s[0]) {
            Option::Some(e0) => {
                assert(spec_entries(s) == seq![e0] + rest);
                assert(spec_entries(s)[i + 1] == e);
            },
            Option::None => {
                assert(spec_entries(s) == rest);
            },
        }
    }
}

/// Every entry of the list comes from some directory of the listing.
proof fn lemma_entries_from_dirs(s: Seq<PackageDirModel>, e: Seq<char>)
    requires
        spec_entries(s).contains(e),
    ensures
        exists|j: int|
            0 <= j < s.len() && #[trigger] spec_entry(s[j]) == Option::Some(e),
    decreases s.len(),
{
    assert(s.len() > 0);
    let rest = spec_entries(s.drop_first());
    match spec_entry(s[0]) {
        Option::Some(e0) => {
            assert(spec_entries(s) == seq![e0] + rest);
            if e0 == e {
                assert(spec_entry(s[0]) == Option::Some(e));
            } else {
                let i = choose|i: int|
                    0 <= i < spec_entries(s).len() && spec_entries(s)[i] == e;
                assert(i >= 1);
                assert(rest[i - 1] == e);
                assert(rest.contains(e));
                lemma_entries_from_dirs(s.drop_first(), e);
                let j = choose|j: int|
                    0 <= j < s.drop_first().len() && #[trigger] spec_entry(s.drop_first()[j])
                        == Option::Some(e);
                assert(s.drop_first()[j] == s[j + 1]);
                assert(spec_entry(s[j + 1]) == Option::Some(e));
            }
        },
        Option::None => {
            assert(spec_entries(s) == rest);
            lemma_entries_from_dirs(s.drop_first(), e);
            let j = choose|j: int|
                0 <= j < s.drop_first().len() && #[trigger] spec_entry(s.drop_first()[j])
                    == Option::Some(e);
            assert(s.drop_first()[j] == s[j + 1]);
            assert(spec_entry(s[j + 1]) == Option::Some(e));
        },
    }
}

/// Pairwise distinct lowered directory names, as a case-insensitive
/// filesystem guarantees for sibling directories.
pub open spec fn distinct_lower_names(dirs: Seq<PackageDirModel>) -> bool {
    forall|i: int, j: int|
        0 <= i < j < dirs.len() && dirs[i].name is Some && dirs[j].name is Some
            ==> lower_chars(#[trigger] dirs[i].name->Some_0) != lower_chars(
            #[trigger] dirs[j].name->Some_0,
        )
}

/// Law: updating one package's active-version modification stamp changes the
/// fingerprint. `b` is the listing `a` with only the stamp of the directory
/// at `k` changed; names are separator-free and pairwise distinct when
/// lowered.
pub proof fn lemma_fingerprint_detects_stamp_change(
    a: Seq<PackageDirModel>,
    b: Seq<PackageDirModel>,
    k: int,
)
    requires
        dirs_clean(a),
        dirs_clean(b),
        distinct_lower_names(a),
        a.len() == b.len(),
        0 <= k < a.len(),
        forall|j: int| 0 <= j < a.len() && j != k ==> a[j] == b[j],
        a[k].name is Some,
        b[k].name == a[k].name,
        spec_dir_stamp(b[k]) != spec_dir_stamp(a[k]),
    ensures
        spec_fingerprint(a) != spec_fingerprint(b),
{
    broadcast use group_to_multiset_ensures;

    if spec_fingerprint(a) == spec_fingerprint(b) {
        lemma_fingerprint_entries(a, b);
        let e = spec_entry(a[k])->Some_0;
        lemma_entries_contains(a, k);
        assert(spec_entries(a).to_multiset().count(e) > 0);
        assert(spec_entries(b).to_multiset().count(e) > 0);
        assert(spec_entries(b).contains(e));
        lemma_entries_from_dirs(b, e);
        let j = choose|j: int|
            0 <= j < b.len() && #[trigger] spec_entry(b[j]) == Option::Some(e);
        lemma_entry_splits(a[k], b[j]);
        if j == k {
            assert(spec_dir_stamp(b[k]) == spec_dir_stamp(a[k]));
            assert(false);
        } else {
            assert(b[j] == a[j]);
            assert(lower_chars(a[j].name->Some_0) == lower_chars(a[k].name->Some_0));
            if j < k {
                assert(lower_chars(a[j].name->Some_0) != lower_chars(a[k].name->Some_0));
            } else {
                assert(lower_chars(a[k].name->Some_0) != lower_chars(a[j].name->Some_0));
            }
            assert(false);
        }
    }
}

/// The fingerprint of the directory listing `dirs`: `<count>|<entries>` with
/// the entries sorted, so that two listings of the same state in any order
/// yield the same text.
pub fn compute_apps_fingerprint(dirs: &Vec<PackageDirState>) -> (r: String)
    ensures
        r@ == spec_fingerprint(dir_models(dirs@)),
{
    let entries = build_entries(dirs);
    let sorted = sort_entries(entries);
    let mut joined = join_with_semi(&sorted);
    let mut fp = dec_u64(dirs.len() as u64);
    fp.push('|');
    let ghost head = fp@;
    fp.append(&mut joined);
    proof {
        assert(dirs@.len() == dir_models(dirs@).len());
        assert(fp@ =~= dec_digits(dir_models(dirs@).len() as nat) + seq!['|'] + join_semi(
            spec_entries(dir_models(dirs@)).sort_by(lex_leq_fn()),
        ));
    }
    chars_to_string(&fp)
}

} // verus!
