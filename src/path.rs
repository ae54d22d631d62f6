use vstd::prelude::*;

verus! {

/// The path of `name` inside the directory at `parent`: the root (the empty
/// path) adds no prefix, any other directory adds its path and a `/`.
pub open spec fn child_path(parent: Seq<char>, name: Seq<char>) -> Seq<char> {
    if parent.len() == 0 {
        name
    } else {
        parent + seq!['/'] + name
    }
}

/// The components joined with `/`.
pub open spec fn join_path(parts: Seq<Seq<char>>) -> Seq<char>
    decreases parts.len(),
{
    if parts.len() == 0 {
        Seq::empty()
    } else if parts.len() == 1 {
        parts[0]
    } else {
        join_path(parts.drop_last()) + seq!['/'] + parts.last()
    }
}

/// The path of `name` inside the directory whose path is `parent`.
pub fn child_of(parent: &str, name: &str) -> (r: String)
    ensures
        r@ == child_path(parent@, name@),
{
    if parent.is_empty() {
        name.to_owned()
    } else {
        let mut r = parent.to_owned();
        let sep = "/";
        proof {
            reveal_strlit("/");
        }
        r.append(sep);
        r.append(name);
        r
    }
}

/// The components of `parts`, followed by `last`, joined with `/`.
pub fn join_with(parts: &[String], last: &str) -> (r: String)
    ensures
        r@ == join_path(parts@.map_values(|s: String| s@).push(last@)),
{
    let ghost views = parts@.map_values(|s: String| s@);
    let mut r = String::new();
    let mut i: usize = 0;
    let sep = "/";
    proof {
        reveal_strlit("/");
    }
    while i < parts.len()
        invariant
            i <= parts@.len(),
            views == parts@.map_values(|s: String| s@),
            sep@ == seq!['/'],
            i == 0 ==> r@.len() == 0,
            i > 0 ==> r@ == join_path(views.take(i as int)),
        decreases parts.len() - i,
    {
        if i > 0 {
            r.append(sep);
        }
        r.append(parts[i].as_str());
        proof {
            let t = views.take(i as int + 1);
            assert(t.drop_last() =~= views.take(i as int));
            assert(t.last() == parts@[i as int]@);
            if i == 0 {
                assert(t.len() == 1);
            }
        }
        i = i + 1;
    }
    proof {
        let all = views.push(last@);
        assert(all.drop_last() =~= views.take(i as int));
        assert(views.take(i as int) =~= views);
    }
    if i > 0 {
        r.append(sep);
    }
    r.append(last);
    proof {
        let all = views.push(last@);
        assert(all.drop_last() =~= views);
        if i == 0 {
            assert(all.len() == 1);
            assert(r@ =~= all[0]);
        }
    }
    r
}

} // verus!
