use vstd::prelude::*;

verus! {

/// The strings of `parts` with `sep` between each two neighbours.
pub open spec fn joined(parts: Seq<Seq<char>>, sep: Seq<char>) -> Seq<char>
    decreases parts.len(),
{
    if parts.len() == 0 {
        Seq::empty()
    } else if parts.len() == 1 {
        parts[0]
    } else {
        joined(parts.drop_last(), sep) + sep + parts.last()
    }
}

/// The tags of a question as one line, separated by a comma and a space.
pub fn format_tags(tags: &[String]) -> (r: String)
    ensures
        r@ == joined(tags@.map_values(|s: String| s@), ", "@),
{
    let n = tags.len();
    let mut out = String::new();
    let mut i: usize = 0;
    while i < n
        invariant
            n == tags@.len(),
            0 <= i <= n,
            out@ == joined(tags@.subrange(0, i as int).map_values(|s: String| s@), ", "@),
        decreases n - i,
    {
        let ghost before = out@;
        if i > 0 {
            out.append(", ");
        }
        out.append(tags[i].as_str());
        let ghost parts = tags@.subrange(0, i + 1).map_values(|s: String| s@);
        assert(parts.drop_last() =~= tags@.subrange(0, i as int).map_values(|s: String| s@));
        if i == 0 {
            assert(before =~= Seq::<char>::empty());
        }
        i = i + 1;
    }
    assert(tags@.subrange(0, n as int) =~= tags@);
    out
}

} // verus!
