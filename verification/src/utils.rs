//! Completion for the first interactive prompt.

use crate::text::{byte_prefix, starts_with};
use vstd::prelude::*;

verus! {

/// The commands the first prompt completed.
pub open spec fn suggestable() -> Seq<Seq<char>> {
    seq!["install"@, "start"@, "console"@, "test"@, "routes"@, "migrate"@]
}

/// The commands that start with `val`, in order.
pub fn suggester(val: &str) -> (v: Vec<String>)
    ensures
        v.deep_view() == suggestable().filter(|c: Seq<char>| byte_prefix(val@, c)),
{
    let commands = vec!["install", "start", "console", "test", "routes", "migrate"];
    let ghost all = commands@.map_values(|s: &'static str| s@);
    let ghost f = |c: Seq<char>| byte_prefix(val@, c);
    assert(all =~= suggestable());
    let mut v: Vec<String> = Vec::new();
    let mut i: usize = 0;
    while i < commands.len()
        invariant
            all == commands@.map_values(|s: &'static str| s@),
            f == (|c: Seq<char>| byte_prefix(val@, c)),
            0 <= i <= commands.len(),
            v.deep_view() == all.take(i as int).filter(f),
        decreases commands.len() - i,
    {
        let ghost before = v.deep_view();
        let keep = starts_with(commands[i], val);
        if keep {
            v.push(String::from_str(commands[i]));
        }
        proof {
            reveal(Seq::filter);
            assert(all.take(i as int + 1).drop_last() =~= all.take(i as int));
            assert(all[i as int] == commands[i as int]@);
            if keep {
                assert(v.deep_view() =~= before.push(all[i as int]));
            } else {
                assert(v.deep_view() =~= before);
            }
        }
        i = i + 1;
    }
    assert(all.take(commands.len() as int) =~= all);
    v
}

} // verus!
