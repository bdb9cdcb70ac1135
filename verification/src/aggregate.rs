//! Aggregate scripts: one synthesized command that fans out to many
//! namespaced scripts concurrently. The dev aggregate always starts with the
//! fixed "run the libraries in watch mode" sub-command and then runs `dev`
//! for every discovered app whose name is not on the exclusion list.

use vstd::prelude::*;
use crate::scripts::views_of;

verus! {

use vstd::string::StringExecFns;

/// The sub-command `npm run {name}:dev`.
pub open spec fn dev_part_spec(name: Seq<char>) -> Seq<char> {
    "npm run "@ + name + ":dev"@
}

/// The fixed first sub-command of the dev aggregate.
pub open spec fn libs_dev_part() -> Seq<char> {
    "npm run libs:dev"@
}

/// The sub-command `{name}:test:watch`.
pub open spec fn watch_part_spec(name: Seq<char>) -> Seq<char> {
    name + ":test:watch"@
}

/// The dev sub-commands of the given app names, in discovery order, skipping
/// every name on the exclusion list.
pub open spec fn dev_parts_spec(names: Seq<Seq<char>>, exclude: Seq<Seq<char>>) -> Seq<Seq<char>>
    decreases names.len(),
{
    if names.len() == 0 {
        Seq::empty()
    } else {
        dev_parts_spec(names.drop_last(), exclude) + (if exclude.contains(names.last()) {
            Seq::<Seq<char>>::empty()
        } else {
            seq![dev_part_spec(names.last())]
        })
    }
}

/// The watch sub-commands of the given app names, skipping excluded names.
pub open spec fn watch_parts_spec(names: Seq<Seq<char>>, exclude: Seq<Seq<char>>) -> Seq<Seq<char>>
    decreases names.len(),
{
    if names.len() == 0 {
        Seq::empty()
    } else {
        watch_parts_spec(names.drop_last(), exclude) + (if exclude.contains(names.last()) {
            Seq::<Seq<char>>::empty()
        } else {
            seq![watch_part_spec(names.last())]
        })
    }
}

/// Joins sub-commands for the concurrent runner: a space and the
/// double-quoted command, for each part in order.
pub open spec fn quoted_join_spec(parts: Seq<Seq<char>>) -> Seq<char>
    decreases parts.len(),
{
    if parts.len() == 0 {
        Seq::empty()
    } else {
        quoted_join_spec(parts.drop_last()) + " \""@ + parts.last() + "\""@
    }
}

/// Joins sub-commands with single spaces.
pub open spec fn space_join_spec(parts: Seq<Seq<char>>) -> Seq<char>
    decreases parts.len(),
{
    if parts.len() == 0 {
        Seq::empty()
    } else {
        space_join_spec(parts.drop_last()) + " "@ + parts.last()
    }
}

/// The whole aggregate dev command.
pub open spec fn aggregate_dev_spec(names: Seq<Seq<char>>, exclude: Seq<Seq<char>>) -> Seq<char> {
    "concurrently"@ + quoted_join_spec(seq![libs_dev_part()] + dev_parts_spec(names, exclude))
}

/// The whole aggregate test-watch command.
pub open spec fn aggregate_watch_spec(names: Seq<Seq<char>>, exclude: Seq<Seq<char>>) -> Seq<char> {
    "npm-run-all --parallel"@ + space_join_spec(watch_parts_spec(names, exclude))
}

/// Whether `x` occurs in `v`.
pub fn contains_name(v: &Vec<String>, x: &String) -> (r: bool)
    ensures
        r == views_of(v@).contains(x@),
{
    let mut i: usize = 0;
    while i < v.len()
        invariant
            i <= v@.len(),
            forall|j: int| 0 <= j < i ==> v@[j]@ != x@,
        decreases v@.len() - i,
    {
        if v[i].eq(x) {
            proof {
                assert(views_of(v@)[i as int] == v@[i as int]@);
            }
            return true;
        }
        i += 1;
    }
    proof {
        assert forall|j: int| 0 <= j < views_of(v@).len() implies views_of(v@)[j] != x@ by {
            assert(views_of(v@)[j] == v@[j]@);
        }
    }
    false
}

/// Builds the aggregate dev command: `concurrently` followed by the quoted
/// `npm run libs:dev` sub-command and then one quoted `npm run {name}:dev`
/// per non-excluded app name, in the given order.
pub fn build_aggregate_script(app_names: &Vec<String>, exclude: &Vec<String>) -> (r: String)
    ensures
        r@ == aggregate_dev_spec(views_of(app_names@), views_of(exclude@)),
{
    let ghost names = views_of(app_names@);
    let ghost excl = views_of(exclude@);
    let mut s = String::from_str("concurrently");
    s.append(" \"");
    s.append("npm run libs:dev");
    s.append("\"");
    let ghost base = seq![libs_dev_part()];
    proof {
        assert(base.drop_last() =~= Seq::<Seq<char>>::empty());
        assert(quoted_join_spec(Seq::<Seq<char>>::empty()) == Seq::<char>::empty());
        assert(base.last() == libs_dev_part());
        assert(quoted_join_spec(base) =~= " \""@ + libs_dev_part() + "\""@);
        assert(dev_parts_spec(names.take(0), excl) =~= Seq::<Seq<char>>::empty());
        assert(base + Seq::<Seq<char>>::empty() =~= base);
        assert(s@ =~= "concurrently"@ + quoted_join_spec(base + dev_parts_spec(names.take(0), excl)));
    }
    let mut i: usize = 0;
    while i < app_names.len()
        invariant
            i <= app_names@.len(),
            names == views_of(app_names@),
            excl == views_of(exclude@),
            base == seq![libs_dev_part()],
            s@ == "concurrently"@ + quoted_join_spec(base + dev_parts_spec(names.take(i as int), excl)),
        decreases app_names@.len() - i,
    {
        let ghost taken = names.take(i as int);
        let ghost parts = base + dev_parts_spec(taken, excl);
        proof {
            assert(names.take(i + 1).drop_last() =~= taken);
            assert(names.take(i + 1).last() == names[i as int]);
            assert(names[i as int] == app_names@[i as int]@);
        }
        if !contains_name(exclude, &app_names[i]) {
            let mut part = String::from_str("npm run ");
            part.append(app_names[i].as_str());
            part.append(":dev");
            s.append(" \"");
            s.append(part.as_str());
            s.append("\"");
            proof {
                assert(part@ == dev_part_spec(names[i as int]));
                let parts2 = base + dev_parts_spec(names.take(i + 1), excl);
                assert(dev_parts_spec(names.take(i + 1), excl)
                    =~= dev_parts_spec(taken, excl) + seq![dev_part_spec(names[i as int])]);
                assert(parts2.drop_last() =~= parts);
                assert(parts2.last() == dev_part_spec(names[i as int]));
                assert(parts2.len() > 0);
                assert(quoted_join_spec(parts2)
                    == quoted_join_spec(parts) + " \""@ + dev_part_spec(names[i as int]) + "\""@);
            }
        } else {
            proof {
                assert(dev_parts_spec(names.take(i + 1), excl) =~= dev_parts_spec(taken, excl));
            }
        }
        i += 1;
    }
    proof {
        assert(names.take(names.len() as int) =~= names);
    }
    s
}

/// Builds the aggregate test-watch command: `npm-run-all --parallel` followed
/// by one `{name}:test:watch` per non-excluded name, in the given order.
pub fn build_watch_script(names_in: &Vec<String>, exclude: &Vec<String>) -> (r: String)
    ensures
        r@ == aggregate_watch_spec(views_of(names_in@), views_of(exclude@)),
{
    let ghost names = views_of(names_in@);
    let ghost excl = views_of(exclude@);
    let mut s = String::from_str("npm-run-all --parallel");
    proof {
        assert(watch_parts_spec(names.take(0), excl) =~= Seq::<Seq<char>>::empty());
        assert(s@ =~= "npm-run-all --parallel"@ + space_join_spec(watch_parts_spec(names.take(0), excl)));
    }
    let mut i: usize = 0;
    while i < names_in.len()
        invariant
            i <= names_in@.len(),
            names == views_of(names_in@),
            excl == views_of(exclude@),
            s@ == "npm-run-all --parallel"@ + space_join_spec(watch_parts_spec(names.take(i as int), excl)),
        decreases names_in@.len() - i,
    {
        let ghost taken = names.take(i as int);
        proof {
            assert(names.take(i + 1).drop_last() =~= taken);
            assert(names.take(i + 1).last() == names[i as int]);
            assert(names[i as int] == names_in@[i as int]@);
        }
        if !contains_name(exclude, &names_in[i]) {
            s.append(" ");
            s.append(names_in[i].as_str());
            s.append(":test:watch");
            proof {
                let parts2 = watch_parts_spec(names.take(i + 1), excl);
                assert(parts2 =~= watch_parts_spec(taken, excl) + seq![watch_part_spec(names[i as int])]);
                assert(parts2.drop_last() =~= watch_parts_spec(taken, excl));
                assert(parts2.last() == watch_part_spec(names[i as int]));
                assert(space_join_spec(parts2)
                    == space_join_spec(watch_parts_spec(taken, excl)) + " "@ + watch_part_spec(names[i as int]));
            }
        } else {
            proof {
                assert(watch_parts_spec(names.take(i + 1), excl) =~= watch_parts_spec(taken, excl));
            }
        }
        i += 1;
    }
    proof {
        assert(names.take(names.len() as int) =~= names);
    }
    s
}

/// Distinct names yield distinct dev sub-commands.
pub proof fn lemma_dev_part_injective(a: Seq<char>, b: Seq<char>)
    requires
        dev_part_spec(a) == dev_part_spec(b),
    ensures
        a == b,
{
    let sa = dev_part_spec(a);
    let sb = dev_part_spec(b);
    assert(sa.len() == "npm run "@.len() + a.len() + ":dev"@.len());
    assert(sb.len() == "npm run "@.len() + b.len() + ":dev"@.len());
    assert(a.len() == b.len());
    assert forall|i: int| 0 <= i < a.len() implies a[i] == b[i] by {
        assert(sa["npm run "@.len() + i] == a[i]);
        assert(sb["npm run "@.len() + i] == b[i]);
    }
    assert(a =~= b);
}

/// A command is among the dev sub-commands exactly when it is the dev
/// sub-command of some non-excluded name.
pub proof fn lemma_dev_parts_membership(names: Seq<Seq<char>>, exclude: Seq<Seq<char>>, c: Seq<char>)
    ensures
        dev_parts_spec(names, exclude).contains(c) <==> exists|i: int|
            0 <= i < names.len() && !exclude.contains(names[i]) && c == dev_part_spec(names[i]),
    decreases names.len(),
{
    if names.len() == 0 {
    } else {
        let front = names.drop_last();
        lemma_dev_parts_membership(front, exclude, c);
        let rec = dev_parts_spec(front, exclude);
        let whole = dev_parts_spec(names, exclude);
        if exclude.contains(names.last()) {
            assert(whole =~= rec);
            if whole.contains(c) {
                let i = choose|i: int| 0 <= i < front.len() && !exclude.contains(front[i]) && c == dev_part_spec(front[i]);
                assert(names[i] == front[i]);
            }
            if exists|i: int| 0 <= i < names.len() && !exclude.contains(names[i]) && c == dev_part_spec(names[i]) {
                let i = choose|i: int| 0 <= i < names.len() && !exclude.contains(names[i]) && c == dev_part_spec(names[i]);
                assert(i < front.len());
                assert(front[i] == names[i]);
                assert(rec.contains(c));
            }
        } else {
            assert(whole == rec + seq![dev_part_spec(names.last())]);
            if whole.contains(c) {
                let j = choose|j: int| 0 <= j < whole.len() && whole[j] == c;
                if j < rec.len() {
                    assert(rec[j] == c);
                    assert(rec.contains(c));
                    let i = choose|i: int| 0 <= i < front.len() && !exclude.contains(front[i]) && c == dev_part_spec(front[i]);
                    assert(names[i] == front[i]);
                } else {
                    assert(c == dev_part_spec(names.last()));
                    assert(0 <= names.len() - 1 < names.len() && !exclude.contains(names[names.len() - 1])
                        && c == dev_part_spec(names[names.len() - 1]));
                }
            }
            if exists|i: int| 0 <= i < names.len() && !exclude.contains(names[i]) && c == dev_part_spec(names[i]) {
                let i = choose|i: int| 0 <= i < names.len() && !exclude.contains(names[i]) && c == dev_part_spec(names[i]);
                if i < front.len() {
                    assert(front[i] == names[i]);
                    assert(rec.contains(c));
                    let j = choose|j: int| 0 <= j < rec.len() && rec[j] == c;
                    assert(whole[j] == c);
                } else {
                    assert(whole[whole.len() - 1] == c);
                }
            }
        }
    }
}

/// The aggregate dev command never carries the dev sub-command of a name on
/// the exclusion list, even when that sub-project declares a dev script.
pub proof fn lemma_excluded_name_absent(names: Seq<Seq<char>>, exclude: Seq<Seq<char>>, e: Seq<char>)
    requires
        exclude.contains(e),
    ensures
        !dev_parts_spec(names, exclude).contains(dev_part_spec(e)),
{
    lemma_dev_parts_membership(names, exclude, dev_part_spec(e));
    if dev_parts_spec(names, exclude).contains(dev_part_spec(e)) {
        let i = choose|i: int|
            0 <= i < names.len() && !exclude.contains(names[i])
                && dev_part_spec(e) == dev_part_spec(names[i]);
        lemma_dev_part_injective(names[i], e);
    }
}

} // verus!
