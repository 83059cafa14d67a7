use vstd::prelude::*;

verus! {

/// Lines joined with a newline between each two, as `Itertools::join` with
/// `"\n"` writes them.
pub open spec fn join_lines(lines: Seq<Seq<char>>) -> Seq<char>
    decreases lines.len(),
{
    if lines.len() == 0 {
        Seq::empty()
    } else if lines.len() == 1 {
        lines[0]
    } else {
        join_lines(lines.drop_last()) + "\n"@ + lines.last()
    }
}

/// The names whose flag is set, in order, over the first `n` of each.
pub open spec fn flagged_names(flags: Seq<bool>, names: Seq<String>, n: int) -> Seq<Seq<char>>
    decreases n,
{
    if n <= 0 {
        Seq::empty()
    } else if flags[n - 1] {
        flagged_names(flags, names, n - 1).push(names[n - 1]@)
    } else {
        flagged_names(flags, names, n - 1)
    }
}

/// The debug overlay text for a character: the names of the states it is in
/// (those whose flag is set, pairing flags and names in order as far as both
/// go), one per line.
pub fn check_states(flags: &Vec<bool>, names: &Vec<String>) -> (text: String)
    ensures
        text@ == join_lines(flagged_names(flags@, names@, vstd::math::min(flags@.len() as int, names@.len() as int))),
{
    let n = if flags.len() < names.len() { flags.len() } else { names.len() };
    let mut text = String::new();
    let mut any = false;
    let mut i: usize = 0;
    while i < n
        invariant
            0 <= i <= n,
            n <= flags@.len(),
            n <= names@.len(),
            text@ == join_lines(flagged_names(flags@, names@, i as int)),
            any == (flagged_names(flags@, names@, i as int).len() > 0),
        decreases n - i,
    {
        if flags[i] {
            let ghost before = flagged_names(flags@, names@, i as int);
            if any {
                text.append("\n");
            }
            text.append(names[i].as_str());
            proof {
                let after = before.push(names@[i as int]@);
                assert(after.drop_last() =~= before);
                if before.len() == 0 {
                    assert(text@ =~= after[0]);
                }
            }
            any = true;
        }
        i = i + 1;
    }
    text
}

} // verus!
