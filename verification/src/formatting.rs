//! Pattern substitution for configured name templates: each `:key` in the
//! pattern is replaced by its value, in the order the variables are given.

use vstd::prelude::*;

use crate::text::spec_replace;
use crate::text::replace_all;

verus! {

/// The pattern with each variable substituted in turn.
pub open spec fn spec_apply_pattern(pattern: Seq<char>, vars: Seq<(Seq<char>, Seq<char>)>) -> Seq<
    char,
>
    decreases vars.len(),
{
    if vars.len() == 0 {
        pattern
    } else {
        spec_apply_pattern(
            spec_replace(pattern, seq![':'] + vars[0].0, vars[0].1),
            vars.drop_first(),
        )
    }
}

/// Substitutes `:key` occurrences in a configured template.
pub fn apply_pattern_string(pattern: &str, vars: &[(&str, &str)]) -> (r: String)
    ensures
        r@ == spec_apply_pattern(
            pattern@,
            vars@.map_values(|p: (&str, &str)| (p.0@, p.1@)),
        ),
{
    let ghost all = vars@.map_values(|p: (&str, &str)| (p.0@, p.1@));
    let mut result: String = pattern.to_owned();
    let mut i: usize = 0;
    proof {
        assert(all.subrange(0, all.len() as int) =~= all);
    }
    while i < vars.len()
        invariant
            i <= vars@.len(),
            all == vars@.map_values(|p: (&str, &str)| (p.0@, p.1@)),
            spec_apply_pattern(result@, all.subrange(i as int, all.len() as int))
                == spec_apply_pattern(pattern@, all),
        decreases vars@.len() - i,
    {
        let ghost rest = all.subrange(i as int, all.len() as int);
        let (key, value) = vars[i];
        let mut needle = ":".to_owned();
        needle.append(key);
        proof {
            reveal_strlit(":");
            assert(needle@ =~= seq![':'] + all[i as int].0);
            assert(rest[0] == all[i as int]);
            assert(rest.drop_first() =~= all.subrange(i as int + 1, all.len() as int));
        }
        let replaced = replace_all(result.as_str(), needle.as_str(), value);
        result = replaced;
        i = i + 1;
    }
    proof {
        assert(all.subrange(all.len() as int, all.len() as int) =~= Seq::<
            (Seq<char>, Seq<char>),
        >::empty());
    }
    result
}

} // verus!
