//! The round trip of the installed-package database: a record written in
//! the append format parses back to the same record.
use vstd::prelude::*;
use crate::cache::{db_text, list_line};
use crate::control::{entry, field, is_first_colon, parse_text, ControlModel};
use crate::text::{is_ws, join, split, trim, trim_end, trim_start};

verus! {

/// A text field that the database can hold: no line break, no surrounding
/// whitespace.
pub open spec fn storable_text(v: Seq<char>) -> bool {
    &&& !v.contains('\n')
    &&& (v.len() == 0 || (!is_ws(v[0]) && !is_ws(v.last())))
}

/// Tokens that a relationship line can carry: storable and free of `,`;
/// a token may be empty.
pub open spec fn tokens_ok(t: Seq<Seq<char>>) -> bool {
    forall|i: int| 0 <= i < t.len() ==> storable_text(#[trigger] t[i]) && !t[i].contains(',')
}

/// A relationship list that the database can hold: absent, or with
/// storable tokens, other than the list of one empty token (written as an
/// empty value, which reads back as absent).
pub open spec fn storable_list(o: Option<Seq<Seq<char>>>) -> bool {
    match o {
        Some(t) => t.len() > 0 && !(t.len() == 1 && t[0].len() == 0) && tokens_ok(t),
        None => true,
    }
}

/// The value trimmed, when present.
pub open spec fn trim_opt(o: Option<Seq<char>>) -> Option<Seq<char>> {
    match o {
        Some(v) => Some(trim(v)),
        None => None,
    }
}

/// A record whose written fields the database can hold: its mandatory
/// fields are non-empty.
pub open spec fn storable(m: ControlModel) -> bool {
    &&& storable_text(m.package) && m.package.len() > 0
    &&& storable_text(m.version) && m.version.len() > 0
    &&& storable_text(m.priority)
    &&& storable_text(m.architecture) && m.architecture.len() > 0
    &&& storable_text(m.maintainer) && m.maintainer.len() > 0
    &&& storable_text(m.description) && m.description.len() > 0
    &&& storable_list(m.depends)
    &&& storable_list(m.pre_depends)
    &&& storable_list(m.recommends)
    &&& storable_list(m.suggests)
    &&& storable_list(m.enhances)
    &&& storable_list(m.breaks)
    &&& storable_list(m.conflicts)
}

/// A `Name: value` line.
pub open spec fn kv_line(p: (Seq<char>, Seq<char>)) -> Seq<char> {
    p.0 + ": "@ + p.1
}

pub open spec fn kv_lines(ps: Seq<(Seq<char>, Seq<char>)>) -> Seq<Seq<char>> {
    ps.map_values(|p: (Seq<char>, Seq<char>)| kv_line(p))
}

/// The pairs with the relationship field `label` added when present.
pub open spec fn opt_pair(
    ps: Seq<(Seq<char>, Seq<char>)>,
    label: Seq<char>,
    o: Option<Seq<Seq<char>>>,
) -> Seq<(Seq<char>, Seq<char>)> {
    match o {
        Some(t) => ps.push((label, join(t, ", "@))),
        None => ps,
    }
}

/// The (name, value) pairs that the database writes for a record, in order.
pub open spec fn db_pairs(m: ControlModel) -> Seq<(Seq<char>, Seq<char>)> {
    let base = seq![("Package"@, m.package)].push(("Version"@, m.version)).push(
        ("Priority"@, m.priority),
    ).push(("Architecture"@, m.architecture)).push(("Maintainer"@, m.maintainer)).push(
        ("Description"@, m.description),
    );
    opt_pair(
        opt_pair(
            opt_pair(
                opt_pair(
                    opt_pair(
                        opt_pair(opt_pair(base, "Depends"@, m.depends), "Pre-Depends"@, m.pre_depends),
                        "Recommends"@,
                        m.recommends,
                    ),
                    "Suggests"@,
                    m.suggests,
                ),
                "Enhances"@,
                m.enhances,
            ),
            "Breaks"@,
            m.breaks,
        ),
        "Conflicts"@,
        m.conflicts,
    )
}

proof fn lemma_join_push(ls: Seq<Seq<char>>, x: Seq<char>, sep: Seq<char>)
    requires
        ls.len() >= 1,
    ensures
        join(ls.push(x), sep) == join(ls, sep) + sep + x,
{
    assert(ls.push(x).drop_last() =~= ls);
}

proof fn lemma_kv_lines_push(ps: Seq<(Seq<char>, Seq<char>)>, p: (Seq<char>, Seq<char>))
    ensures
        kv_lines(ps.push(p)) == kv_lines(ps).push(kv_line(p)),
{
    assert(kv_lines(ps.push(p)) =~= kv_lines(ps).push(kv_line(p)));
}

proof fn lemma_opt_pair_text(ps: Seq<(Seq<char>, Seq<char>)>, label: Seq<char>, o: Option<Seq<Seq<char>>>)
    requires
        ps.len() >= 1,
    ensures
        opt_pair(ps, label, o).len() >= 1,
        join(kv_lines(opt_pair(ps, label, o)), "\n"@) == join(kv_lines(ps), "\n"@) + list_line(label, o),
{
    match o {
        Some(t) => {
            let p = (label, join(t, ", "@));
            lemma_kv_lines_push(ps, p);
            lemma_join_push(kv_lines(ps), kv_line(p), "\n"@);
            assert(join(kv_lines(ps), "\n"@) + "\n"@ + kv_line(p) =~= join(kv_lines(ps), "\n"@)
                + list_line(label, o));
        },
        None => {
            assert(join(kv_lines(ps), "\n"@) + list_line(label, o) =~= join(kv_lines(ps), "\n"@));
        },
    }
}

proof fn lemma_db_text_lines(m: ControlModel)
    ensures
        db_pairs(m).len() >= 6,
        db_text(m) == join(kv_lines(db_pairs(m)), "\n"@) + "\n\n"@,
{
    reveal_strlit("\n");
    reveal_strlit(": ");
    reveal_strlit("\n\n");
    reveal_strlit("Package: ");
    reveal_strlit("Package");
    reveal_strlit("\nVersion: ");
    reveal_strlit("Version");
    reveal_strlit("\nPriority: ");
    reveal_strlit("Priority");
    reveal_strlit("\nArchitecture: ");
    reveal_strlit("Architecture");
    reveal_strlit("\nMaintainer: ");
    reveal_strlit("Maintainer");
    reveal_strlit("\nDescription: ");
    reveal_strlit("Description");
    let b1 = seq![("Package"@, m.package)];
    let b2 = b1.push(("Version"@, m.version));
    let b3 = b2.push(("Priority"@, m.priority));
    let b4 = b3.push(("Architecture"@, m.architecture));
    let b5 = b4.push(("Maintainer"@, m.maintainer));
    let b6 = b5.push(("Description"@, m.description));
    assert(kv_lines(b1) =~= seq![kv_line(b1[0])]);
    lemma_kv_lines_push(b1, ("Version"@, m.version));
    lemma_kv_lines_push(b2, ("Priority"@, m.priority));
    lemma_kv_lines_push(b3, ("Architecture"@, m.architecture));
    lemma_kv_lines_push(b4, ("Maintainer"@, m.maintainer));
    lemma_kv_lines_push(b5, ("Description"@, m.description));
    lemma_join_push(kv_lines(b1), kv_line(("Version"@, m.version)), "\n"@);
    lemma_join_push(kv_lines(b2), kv_line(("Priority"@, m.priority)), "\n"@);
    lemma_join_push(kv_lines(b3), kv_line(("Architecture"@, m.architecture)), "\n"@);
    lemma_join_push(kv_lines(b4), kv_line(("Maintainer"@, m.maintainer)), "\n"@);
    lemma_join_push(kv_lines(b5), kv_line(("Description"@, m.description)), "\n"@);
    let t0 = "Package: "@ + m.package + "\nVersion: "@ + m.version + "\nPriority: "@ + m.priority
        + "\nArchitecture: "@ + m.architecture + "\nMaintainer: "@ + m.maintainer
        + "\nDescription: "@ + m.description;
    assert(join(kv_lines(b6), "\n"@) =~= t0);
    let q1 = opt_pair(b6, "Depends"@, m.depends);
    let q2 = opt_pair(q1, "Pre-Depends"@, m.pre_depends);
    let q3 = opt_pair(q2, "Recommends"@, m.recommends);
    let q4 = opt_pair(q3, "Suggests"@, m.suggests);
    let q5 = opt_pair(q4, "Enhances"@, m.enhances);
    let q6 = opt_pair(q5, "Breaks"@, m.breaks);
    lemma_opt_pair_text(b6, "Depends"@, m.depends);
    lemma_opt_pair_text(q1, "Pre-Depends"@, m.pre_depends);
    lemma_opt_pair_text(q2, "Recommends"@, m.recommends);
    lemma_opt_pair_text(q3, "Suggests"@, m.suggests);
    lemma_opt_pair_text(q4, "Enhances"@, m.enhances);
    lemma_opt_pair_text(q5, "Breaks"@, m.breaks);
    lemma_opt_pair_text(q6, "Conflicts"@, m.conflicts);
    assert(db_text(m) =~= join(kv_lines(db_pairs(m)), "\n"@) + "\n\n"@);
}

proof fn lemma_split_append(a: Seq<char>, b: Seq<char>, sep: char)
    ensures
        split(a + seq![sep] + b, sep) == split(a, sep) + split(b, sep),
    decreases b.len(),
{
    if b.len() == 0 {
        assert((a + seq![sep] + b).drop_last() =~= a);
        assert(split(b, sep) =~= seq![Seq::<char>::empty()]);
        assert(split(a + seq![sep] + b, sep) =~= split(a, sep) + split(b, sep));
    } else {
        lemma_split_append(a, b.drop_last(), sep);
        crate::text::lemma_split_nonempty(b.drop_last(), sep);
        assert((a + seq![sep] + b).drop_last() =~= a + seq![sep] + b.drop_last());
        assert((a + seq![sep] + b).last() == b.last());
        assert(split(a + seq![sep] + b, sep) =~= split(a, sep) + split(b, sep));
    }
}

proof fn lemma_not_contains_concat(a: Seq<char>, b: Seq<char>, c: char)
    requires
        !a.contains(c),
        !b.contains(c),
    ensures
        !(a + b).contains(c),
{
    if (a + b).contains(c) {
        let i = choose|i: int| 0 <= i < (a + b).len() && (a + b)[i] == c;
        if i < a.len() {
            assert(a[i] == c);
        } else {
            assert(b[i - a.len()] == c);
        }
    }
}

proof fn lemma_split_join(ls: Seq<Seq<char>>)
    requires
        ls.len() >= 1,
        forall|i: int| 0 <= i < ls.len() ==> !(#[trigger] ls[i]).contains('\n'),
    ensures
        split(join(ls, "\n"@), '\n') == ls,
    decreases ls.len(),
{
    reveal_strlit("\n");
    if ls.len() == 1 {
        crate::control::lemma_split_without_sep(ls[0], '\n');
        assert(split(join(ls, "\n"@), '\n') =~= ls);
    } else {
        let init = ls.drop_last();
        assert forall|i: int| 0 <= i < init.len() implies !(#[trigger] init[i]).contains('\n') by {
            assert(init[i] == ls[i]);
        }
        lemma_split_join(init);
        assert(ls[ls.len() - 1] == ls.last());
        crate::control::lemma_split_without_sep(ls.last(), '\n');
        assert(join(init, "\n"@) + "\n"@ + ls.last() =~= join(init, "\n"@) + seq!['\n'] + ls.last());
        lemma_split_append(join(init, "\n"@), ls.last(), '\n');
        assert(split(join(ls, "\n"@), '\n') =~= ls);
    }
}

proof fn lemma_split_join_blank(ls: Seq<Seq<char>>)
    requires
        ls.len() >= 1,
        forall|i: int| 0 <= i < ls.len() ==> !(#[trigger] ls[i]).contains('\n'),
    ensures
        split(join(ls, "\n"@) + "\n\n"@, '\n') == ls.push(Seq::empty()).push(Seq::empty()),
{
    reveal_strlit("\n\n");
    let x = join(ls, "\n"@);
    lemma_split_join(ls);
    let y = x + seq!['\n'];
    assert(x + "\n\n"@ =~= y + seq!['\n'] + Seq::empty());
    assert(y =~= x + seq!['\n'] + Seq::empty());
    lemma_split_append(x, Seq::empty(), '\n');
    lemma_split_append(y, Seq::empty(), '\n');
    assert(split(Seq::<char>::empty(), '\n') =~= seq![Seq::<char>::empty()]);
    assert(split(x + "\n\n"@, '\n') =~= ls.push(Seq::empty()).push(Seq::empty()));
}

proof fn lemma_trim_clean(v: Seq<char>)
    requires
        v.len() == 0 || (!is_ws(v[0]) && !is_ws(v.last())),
    ensures
        trim(v) == v,
{
    assert(trim_start(v) == v);
    assert(trim_end(v) == v);
}

proof fn lemma_trim_space(v: Seq<char>)
    ensures
        trim(" "@ + v) == trim(v),
{
    reveal_strlit(" ");
    assert((" "@ + v).drop_first() =~= v);
    assert((" "@ + v)[0] == ' ');
}

/// A key that a `Name: value` line can carry.
pub open spec fn plain_key(k: Seq<char>) -> bool {
    &&& !k.contains(':')
    &&& !k.contains('\n')
    &&& k.len() > 0
    &&& !is_ws(k[0])
    &&& !is_ws(k.last())
}

proof fn lemma_entry_kv(k: Seq<char>, v: Seq<char>)
    requires
        plain_key(k),
    ensures
        entry(kv_line((k, v))) == Some((k, trim(v))),
{
    reveal_strlit(": ");
    let l = kv_line((k, v));
    let n = k.len() as int;
    assert(l[n] == ':');
    assert forall|j: int| 0 <= j < n implies l[j] != ':' by {
        assert(l[j] == k[j]);
        if k[j] == ':' {
            assert(k.contains(':'));
        }
    }
    assert(is_first_colon(l, n));
    assert forall|j: int| is_first_colon(l, j) implies j == n by {
        if j < n {
            assert(l[j] == k[j]);
            assert(k.contains(':'));
        }
    }
    assert(l.take(n) =~= k);
    assert(l.skip(n + 1) =~= " "@ + v) by {
        reveal_strlit(" ");
    }
    lemma_trim_space(v);
    lemma_trim_clean(k);
}

proof fn lemma_field_push(lines: Seq<Seq<char>>, l: Seq<char>, key: Seq<char>)
    ensures
        field(lines.push(l), key) == match entry(l) {
            Some((k, v)) => if k == key {
                Some(v)
            } else {
                field(lines, key)
            },
            None => field(lines, key),
        },
{
    assert(lines.push(l).drop_last() =~= lines);
}

/// The value of the last pair named `key`.
pub open spec fn last_value(ps: Seq<(Seq<char>, Seq<char>)>, key: Seq<char>) -> Option<Seq<char>>
    decreases ps.len(),
{
    if ps.len() == 0 {
        None
    } else if ps.last().0 == key {
        Some(ps.last().1)
    } else {
        last_value(ps.drop_last(), key)
    }
}

proof fn lemma_field_kv(ps: Seq<(Seq<char>, Seq<char>)>, key: Seq<char>)
    requires
        pairs_ok(ps),
    ensures
        field(kv_lines(ps), key) == trim_opt(last_value(ps, key)),
    decreases ps.len(),
{
    if ps.len() > 0 {
        let init = ps.drop_last();
        assert forall|i: int| 0 <= i < init.len() implies plain_key((#[trigger] init[i]).0) && !init[i].1.contains('\n') by {
            assert(init[i] == ps[i]);
        }
        lemma_field_kv(init, key);
        assert(ps[ps.len() - 1] == ps.last());
        lemma_entry_kv(ps.last().0, ps.last().1);
        assert(kv_lines(ps) =~= kv_lines(init).push(kv_line(ps.last())));
        lemma_field_push(kv_lines(init), kv_line(ps.last()), key);
    }
}

proof fn lemma_join_list(t: Seq<Seq<char>>)
    requires
        t.len() > 0,
        tokens_ok(t),
    ensures
        !join(t, ", "@).contains('\n'),
        join(t, ", "@).len() > 0 ==> !is_ws(join(t, ", "@)[0]),
        t.last().len() > 0 ==> join(t, ", "@).len() > 0 && !is_ws(join(t, ", "@).last()),
        split(join(t, ", "@), ',').map_values(|x: Seq<char>| trim(x)) == t,
    decreases t.len(),
{
    reveal_strlit(", ");
    reveal_strlit(" ");
    if t.len() == 1 {
        assert(storable_text(t[0]) && !t[0].contains(','));
        assert(t.last() == t[0]);
        crate::control::lemma_split_without_sep(t[0], ',');
        lemma_trim_clean(t[0]);
        assert(split(join(t, ", "@), ',').map_values(|x: Seq<char>| trim(x)) =~= t);
    } else {
        let init = t.drop_last();
        let x = t.last();
        assert(t[t.len() - 1] == x);
        assert(storable_text(x) && !x.contains(','));
        assert forall|i: int| 0 <= i < init.len() implies storable_text(#[trigger] init[i]) && !init[i].contains(',') by {
            assert(init[i] == t[i]);
        }
        lemma_join_list(init);
        let j = join(init, ", "@);
        let sx = " "@ + x;
        assert(join(t, ", "@) =~= j + seq![','] + sx);
        assert(!sx.contains(',')) by {
            if sx.contains(',') {
                let i = choose|i: int| 0 <= i < sx.len() && sx[i] == ',';
                assert(x[i - 1] == ',');
            }
        }
        assert(!sx.contains('\n')) by {
            if sx.contains('\n') {
                let i = choose|i: int| 0 <= i < sx.len() && sx[i] == '\n';
                assert(x[i - 1] == '\n');
            }
        }
        assert(!seq![','].contains('\n')) by {
            if seq![','].contains('\n') {
                let i = choose|i: int| 0 <= i < 1 && seq![','][i] == '\n';
            }
        }
        lemma_not_contains_concat(j, seq![','], '\n');
        lemma_not_contains_concat(j + seq![','], sx, '\n');
        let whole = j + seq![','] + sx;
        if j.len() > 0 {
            assert(whole[0] == j[0]);
        } else {
            assert(whole[0] == ',');
        }
        if x.len() > 0 {
            assert(whole.last() == x.last());
        }
        lemma_split_append(j, sx, ',');
        crate::control::lemma_split_without_sep(sx, ',');
        lemma_trim_space(x);
        lemma_trim_clean(x);
        let sj = split(j, ',');
        assert(split(whole, ',') == sj + seq![sx]);
        assert((sj + seq![sx]).map_values(|y: Seq<char>| trim(y)) =~= sj.map_values(|y: Seq<char>| trim(y)).push(trim(sx)));
        assert(t =~= init.push(x));
        assert(split(join(t, ", "@), ',').map_values(|y: Seq<char>| trim(y)) =~= t);
    }
}

/// A storable list written as its joined tokens reads back as itself.
proof fn lemma_join_trim(t: Seq<Seq<char>>)
    requires
        storable_list(Some(t)),
    ensures
        crate::control::split_list(Some(trim(join(t, ", "@)))) == Some(t),
{
    reveal_strlit(", ");
    lemma_join_list(t);
    let jt = join(t, ", "@);
    if t.last().len() > 0 {
        lemma_trim_clean(jt);
    } else {
        let init = t.drop_last();
        assert(t.len() >= 2);
        assert forall|i: int| 0 <= i < init.len() implies storable_text(#[trigger] init[i]) && !init[i].contains(',') by {
            assert(init[i] == t[i]);
        }
        lemma_join_list(init);
        let c = join(init, ", "@) + seq![','];
        assert(jt =~= c.push(' '));
        assert(jt[0] == c[0]);
        assert(!is_ws(c[0])) by {
            if join(init, ", "@).len() == 0 {
                assert(c[0] == ',');
            }
        }
        assert(trim_start(jt) == jt);
        assert(jt.drop_last() =~= c);
        assert(trim_end(jt) == trim_end(c));
        assert(c.last() == ',');
        assert(trim_end(c) == c);
        assert(trim(jt) == c);
        assert(c =~= join(init, ", "@) + seq![','] + Seq::<char>::empty());
        lemma_split_append(join(init, ", "@), Seq::empty(), ',');
        assert(split(Seq::<char>::empty(), ',') =~= seq![Seq::<char>::empty()]);
        let sj = split(join(init, ", "@), ',');
        assert((sj + seq![Seq::<char>::empty()]).map_values(|y: Seq<char>| trim(y)) =~= sj.map_values(
            |y: Seq<char>| trim(y),
        ).push(trim(Seq::<char>::empty())));
        assert(trim(Seq::<char>::empty()) =~= Seq::<char>::empty());
        assert(t.last() =~= Seq::<char>::empty());
        assert(t[t.len() - 1] == t.last());
        assert(t =~= init.push(Seq::<char>::empty()));
    }
}

proof fn lemma_last_value_opt(
    ps: Seq<(Seq<char>, Seq<char>)>,
    label: Seq<char>,
    o: Option<Seq<Seq<char>>>,
    key: Seq<char>,
)
    ensures
        last_value(opt_pair(ps, label, o), key) == (if o is Some && label == key {
            Some(join(o->0, ", "@))
        } else {
            last_value(ps, key)
        }),
{
    if o is Some {
        assert(opt_pair(ps, label, o).drop_last() =~= ps);
    }
}

/// Every pair carries a plain key and a value without line break.
pub open spec fn pairs_ok(ps: Seq<(Seq<char>, Seq<char>)>) -> bool {
    forall|i: int| 0 <= i < ps.len() ==> plain_key((#[trigger] ps[i]).0) && !ps[i].1.contains('\n')
}

proof fn lemma_pairs_ok_push(ps: Seq<(Seq<char>, Seq<char>)>, k: Seq<char>, v: Seq<char>)
    requires
        pairs_ok(ps),
        plain_key(k),
        !v.contains('\n'),
    ensures
        pairs_ok(ps.push((k, v))),
{
    assert forall|i: int| 0 <= i < ps.push((k, v)).len() implies plain_key((#[trigger] ps.push((k, v))[i]).0)
        && !ps.push((k, v))[i].1.contains('\n') by {
        if i < ps.len() {
            assert(ps.push((k, v))[i] == ps[i]);
        }
    }
}

proof fn lemma_pairs_ok_opt(ps: Seq<(Seq<char>, Seq<char>)>, label: Seq<char>, o: Option<Seq<Seq<char>>>)
    requires
        pairs_ok(ps),
        plain_key(label),
        storable_list(o),
    ensures
        pairs_ok(opt_pair(ps, label, o)),
{
    if o is Some {
        lemma_join_list(o->0);
        lemma_pairs_ok_push(ps, label, join(o->0, ", "@));
    }
}

proof fn lemma_plain_key(k: Seq<char>)
    requires
        k.len() > 0,
        forall|i: int| 0 <= i < k.len() ==> (#[trigger] k[i]) != ':' && k[i] != '\n' && !is_ws(k[i]),
    ensures
        plain_key(k),
{
    assert(k[k.len() - 1] == k.last());
}

proof fn lemma_keys()
    ensures
        plain_key("Package"@),
        plain_key("Version"@),
        plain_key("Priority"@),
        plain_key("Architecture"@),
        plain_key("Maintainer"@),
        plain_key("Description"@),
        plain_key("Depends"@),
        plain_key("Pre-Depends"@),
        plain_key("Recommends"@),
        plain_key("Suggests"@),
        plain_key("Enhances"@),
        plain_key("Breaks"@),
        plain_key("Conflicts"@),
        "Package"@.len() == 7 && "Package"@[0] == 'P',
        "Version"@.len() == 7 && "Version"@[0] == 'V',
        "Priority"@.len() == 8 && "Priority"@[0] == 'P',
        "Architecture"@.len() == 12 && "Architecture"@[0] == 'A',
        "Maintainer"@.len() == 10 && "Maintainer"@[0] == 'M',
        "Description"@.len() == 11 && "Description"@[0] == 'D',
        "Depends"@.len() == 7 && "Depends"@[0] == 'D',
        "Pre-Depends"@.len() == 11 && "Pre-Depends"@[0] == 'P',
        "Recommends"@.len() == 10 && "Recommends"@[0] == 'R',
        "Suggests"@.len() == 8 && "Suggests"@[0] == 'S',
        "Enhances"@.len() == 8 && "Enhances"@[0] == 'E',
        "Breaks"@.len() == 6 && "Breaks"@[0] == 'B',
        "Conflicts"@.len() == 9 && "Conflicts"@[0] == 'C',
{
    reveal_strlit("Package");
    reveal_strlit("Version");
    reveal_strlit("Priority");
    reveal_strlit("Architecture");
    reveal_strlit("Maintainer");
    reveal_strlit("Description");
    reveal_strlit("Depends");
    reveal_strlit("Pre-Depends");
    reveal_strlit("Recommends");
    reveal_strlit("Suggests");
    reveal_strlit("Enhances");
    reveal_strlit("Breaks");
    reveal_strlit("Conflicts");
    lemma_plain_key("Package"@);
    lemma_plain_key("Version"@);
    lemma_plain_key("Priority"@);
    lemma_plain_key("Architecture"@);
    lemma_plain_key("Maintainer"@);
    lemma_plain_key("Description"@);
    lemma_plain_key("Depends"@);
    lemma_plain_key("Pre-Depends"@);
    lemma_plain_key("Recommends"@);
    lemma_plain_key("Suggests"@);
    lemma_plain_key("Enhances"@);
    lemma_plain_key("Breaks"@);
    lemma_plain_key("Conflicts"@);
}

proof fn lemma_last_value_push(ps: Seq<(Seq<char>, Seq<char>)>, p: (Seq<char>, Seq<char>), key: Seq<char>)
    ensures
        last_value(ps.push(p), key) == (if p.0 == key {
            Some(p.1)
        } else {
            last_value(ps, key)
        }),
{
    assert(ps.push(p).drop_last() =~= ps);
}

proof fn lemma_db_fields(m: ControlModel)
    requires
        storable(m),
    ensures
        forall|key: Seq<char>| #[trigger] field(split(db_text(m), '\n'), key) == trim_opt(last_value(db_pairs(m), key)),
{
    lemma_keys();
    let b1 = seq![("Package"@, m.package)];
    let b2 = b1.push(("Version"@, m.version));
    let b3 = b2.push(("Priority"@, m.priority));
    let b4 = b3.push(("Architecture"@, m.architecture));
    let b5 = b4.push(("Maintainer"@, m.maintainer));
    let b6 = b5.push(("Description"@, m.description));
    assert(pairs_ok(b1));
    lemma_pairs_ok_push(b1, "Version"@, m.version);
    lemma_pairs_ok_push(b2, "Priority"@, m.priority);
    lemma_pairs_ok_push(b3, "Architecture"@, m.architecture);
    lemma_pairs_ok_push(b4, "Maintainer"@, m.maintainer);
    lemma_pairs_ok_push(b5, "Description"@, m.description);
    let q1 = opt_pair(b6, "Depends"@, m.depends);
    let q2 = opt_pair(q1, "Pre-Depends"@, m.pre_depends);
    let q3 = opt_pair(q2, "Recommends"@, m.recommends);
    let q4 = opt_pair(q3, "Suggests"@, m.suggests);
    let q5 = opt_pair(q4, "Enhances"@, m.enhances);
    let q6 = opt_pair(q5, "Breaks"@, m.breaks);
    let q7 = opt_pair(q6, "Conflicts"@, m.conflicts);
    lemma_pairs_ok_opt(b6, "Depends"@, m.depends);
    lemma_pairs_ok_opt(q1, "Pre-Depends"@, m.pre_depends);
    lemma_pairs_ok_opt(q2, "Recommends"@, m.recommends);
    lemma_pairs_ok_opt(q3, "Suggests"@, m.suggests);
    lemma_pairs_ok_opt(q4, "Enhances"@, m.enhances);
    lemma_pairs_ok_opt(q5, "Breaks"@, m.breaks);
    lemma_pairs_ok_opt(q6, "Conflicts"@, m.conflicts);
    assert(q7 == db_pairs(m));
    lemma_db_text_lines(m);
    let ls = kv_lines(q7);
    assert forall|i: int| 0 <= i < ls.len() implies !(#[trigger] ls[i]).contains('\n') by {
        let p = q7[i];
        assert(plain_key(p.0) && !p.1.contains('\n'));
        reveal_strlit(": ");
        assert(!": "@.contains('\n')) by {
            if ": "@.contains('\n') {
                let j = choose|j: int| 0 <= j < 2 && ": "@[j] == '\n';
            }
        }
        lemma_not_contains_concat(p.0, ": "@, '\n');
        lemma_not_contains_concat(p.0 + ": "@, p.1, '\n');
    }
    lemma_split_join_blank(ls);
    let lines = split(db_text(m), '\n');
    assert(lines == ls.push(Seq::empty()).push(Seq::empty()));
    assert(entry(Seq::<char>::empty()) is None);
    assert forall|key: Seq<char>| #[trigger] field(lines, key) == trim_opt(last_value(q7, key)) by {
        lemma_field_push(ls.push(Seq::empty()), Seq::empty(), key);
        lemma_field_push(ls, Seq::empty(), key);
        lemma_field_kv(q7, key);
    }
}

/// The base pairs of a record: its six text fields.
pub open spec fn base_pairs(m: ControlModel) -> Seq<(Seq<char>, Seq<char>)> {
    seq![("Package"@, m.package)].push(("Version"@, m.version)).push(("Priority"@, m.priority)).push(
        ("Architecture"@, m.architecture),
    ).push(("Maintainer"@, m.maintainer)).push(("Description"@, m.description))
}

proof fn lemma_db_values(m: ControlModel)
    ensures
        forall|key: Seq<char>| #[trigger] last_value(base_pairs(m), key) == (if key == "Description"@ {
            Some(m.description)
        } else if key == "Maintainer"@ {
            Some(m.maintainer)
        } else if key == "Architecture"@ {
            Some(m.architecture)
        } else if key == "Priority"@ {
            Some(m.priority)
        } else if key == "Version"@ {
            Some(m.version)
        } else if key == "Package"@ {
            Some(m.package)
        } else {
            None
        }),
        forall|key: Seq<char>| #[trigger] last_value(db_pairs(m), key) == (if key == "Conflicts"@ && m.conflicts is Some {
            Some(join(m.conflicts->0, ", "@))
        } else if key == "Breaks"@ && m.breaks is Some {
            Some(join(m.breaks->0, ", "@))
        } else if key == "Enhances"@ && m.enhances is Some {
            Some(join(m.enhances->0, ", "@))
        } else if key == "Suggests"@ && m.suggests is Some {
            Some(join(m.suggests->0, ", "@))
        } else if key == "Recommends"@ && m.recommends is Some {
            Some(join(m.recommends->0, ", "@))
        } else if key == "Pre-Depends"@ && m.pre_depends is Some {
            Some(join(m.pre_depends->0, ", "@))
        } else if key == "Depends"@ && m.depends is Some {
            Some(join(m.depends->0, ", "@))
        } else {
            last_value(base_pairs(m), key)
        }),
{
    lemma_keys();
    let b1 = seq![("Package"@, m.package)];
    let b2 = b1.push(("Version"@, m.version));
    let b3 = b2.push(("Priority"@, m.priority));
    let b4 = b3.push(("Architecture"@, m.architecture));
    let b5 = b4.push(("Maintainer"@, m.maintainer));
    let b6 = b5.push(("Description"@, m.description));
    let q1 = opt_pair(b6, "Depends"@, m.depends);
    let q2 = opt_pair(q1, "Pre-Depends"@, m.pre_depends);
    let q3 = opt_pair(q2, "Recommends"@, m.recommends);
    let q4 = opt_pair(q3, "Suggests"@, m.suggests);
    let q5 = opt_pair(q4, "Enhances"@, m.enhances);
    let q6 = opt_pair(q5, "Breaks"@, m.breaks);
    let q7 = opt_pair(q6, "Conflicts"@, m.conflicts);
    assert(q7 == db_pairs(m));
    assert(b6 == base_pairs(m));
    assert forall|key: Seq<char>| #[trigger] last_value(b6, key) == (if key == "Description"@ {
        Some(m.description)
    } else if key == "Maintainer"@ {
        Some(m.maintainer)
    } else if key == "Architecture"@ {
        Some(m.architecture)
    } else if key == "Priority"@ {
        Some(m.priority)
    } else if key == "Version"@ {
        Some(m.version)
    } else if key == "Package"@ {
        Some(m.package)
    } else {
        None
    }) by {
        lemma_last_value_push(b5, ("Description"@, m.description), key);
        lemma_last_value_push(b4, ("Maintainer"@, m.maintainer), key);
        lemma_last_value_push(b3, ("Architecture"@, m.architecture), key);
        lemma_last_value_push(b2, ("Priority"@, m.priority), key);
        lemma_last_value_push(b1, ("Version"@, m.version), key);
        lemma_last_value_push(Seq::empty(), ("Package"@, m.package), key);
        assert(Seq::<(Seq<char>, Seq<char>)>::empty().push(("Package"@, m.package)) =~= b1);
    }
    assert forall|key: Seq<char>| #[trigger] last_value(q7, key) == (if key == "Conflicts"@ && m.conflicts is Some {
        Some(join(m.conflicts->0, ", "@))
    } else if key == "Breaks"@ && m.breaks is Some {
        Some(join(m.breaks->0, ", "@))
    } else if key == "Enhances"@ && m.enhances is Some {
        Some(join(m.enhances->0, ", "@))
    } else if key == "Suggests"@ && m.suggests is Some {
        Some(join(m.suggests->0, ", "@))
    } else if key == "Recommends"@ && m.recommends is Some {
        Some(join(m.recommends->0, ", "@))
    } else if key == "Pre-Depends"@ && m.pre_depends is Some {
        Some(join(m.pre_depends->0, ", "@))
    } else if key == "Depends"@ && m.depends is Some {
        Some(join(m.depends->0, ", "@))
    } else {
        last_value(b6, key)
    }) by {
        lemma_last_value_opt(b6, "Depends"@, m.depends, key);
        lemma_last_value_opt(q1, "Pre-Depends"@, m.pre_depends, key);
        lemma_last_value_opt(q2, "Recommends"@, m.recommends, key);
        lemma_last_value_opt(q3, "Suggests"@, m.suggests, key);
        lemma_last_value_opt(q4, "Enhances"@, m.enhances, key);
        lemma_last_value_opt(q5, "Breaks"@, m.breaks, key);
        lemma_last_value_opt(q6, "Conflicts"@, m.conflicts, key);
    }
}

/// Writing a record in the database's append format and parsing the text
/// back gives the record again, for every field that the format writes:
/// the six text fields and the seven relationship fields. The text fields
/// must hold no line break and no surrounding whitespace, and the mandatory
/// ones must be non-empty; a relationship token must hold no `,` either and
/// may be empty, but a list of one empty token is written as an empty value
/// and reads back as absent, so it is left out.
pub proof fn lemma_db_round_trip(m: ControlModel)
    requires
        storable(m),
    ensures
        parse_text(db_text(m)) is Ok,
        parse_text(db_text(m))->Ok_0.package == m.package,
        parse_text(db_text(m))->Ok_0.version == m.version,
        parse_text(db_text(m))->Ok_0.priority == m.priority,
        parse_text(db_text(m))->Ok_0.architecture == m.architecture,
        parse_text(db_text(m))->Ok_0.maintainer == m.maintainer,
        parse_text(db_text(m))->Ok_0.description == m.description,
        parse_text(db_text(m))->Ok_0.depends == m.depends,
        parse_text(db_text(m))->Ok_0.pre_depends == m.pre_depends,
        parse_text(db_text(m))->Ok_0.recommends == m.recommends,
        parse_text(db_text(m))->Ok_0.suggests == m.suggests,
        parse_text(db_text(m))->Ok_0.enhances == m.enhances,
        parse_text(db_text(m))->Ok_0.breaks == m.breaks,
        parse_text(db_text(m))->Ok_0.conflicts == m.conflicts,
{
    lemma_keys();
    lemma_db_fields(m);
    lemma_db_values(m);
    let lines = split(db_text(m), '\n');
    let q7 = db_pairs(m);
    if m.depends is Some {
        lemma_join_trim(m.depends->0);
    }
    assert(field(lines, "Depends"@) == trim_opt(last_value(q7, "Depends"@)));
    if m.pre_depends is Some {
        lemma_join_trim(m.pre_depends->0);
    }
    assert(field(lines, "Pre-Depends"@) == trim_opt(last_value(q7, "Pre-Depends"@)));
    if m.recommends is Some {
        lemma_join_trim(m.recommends->0);
    }
    assert(field(lines, "Recommends"@) == trim_opt(last_value(q7, "Recommends"@)));
    if m.suggests is Some {
        lemma_join_trim(m.suggests->0);
    }
    assert(field(lines, "Suggests"@) == trim_opt(last_value(q7, "Suggests"@)));
    if m.enhances is Some {
        lemma_join_trim(m.enhances->0);
    }
    assert(field(lines, "Enhances"@) == trim_opt(last_value(q7, "Enhances"@)));
    if m.breaks is Some {
        lemma_join_trim(m.breaks->0);
    }
    assert(field(lines, "Breaks"@) == trim_opt(last_value(q7, "Breaks"@)));
    if m.conflicts is Some {
        lemma_join_trim(m.conflicts->0);
    }
    assert(field(lines, "Conflicts"@) == trim_opt(last_value(q7, "Conflicts"@)));
    lemma_trim_clean(m.package);
    lemma_trim_clean(m.version);
    lemma_trim_clean(m.priority);
    lemma_trim_clean(m.architecture);
    lemma_trim_clean(m.maintainer);
    lemma_trim_clean(m.description);
    assert(field(lines, "Package"@) == trim_opt(last_value(q7, "Package"@)));
    assert(field(lines, "Version"@) == trim_opt(last_value(q7, "Version"@)));
    assert(field(lines, "Priority"@) == trim_opt(last_value(q7, "Priority"@)));
    assert(field(lines, "Architecture"@) == trim_opt(last_value(q7, "Architecture"@)));
    assert(field(lines, "Maintainer"@) == trim_opt(last_value(q7, "Maintainer"@)));
    assert(field(lines, "Description"@) == trim_opt(last_value(q7, "Description"@)));
}

} // verus!
