//! Reading arguments of incoming method calls and signals.
use vstd::prelude::*;

verus! {

/// The leading string arguments of a message, at most `max` of them: the
/// arguments up to the first one that is not a string (or object path).
/// Each argument is `Some(text)` for a string or object path, `None` for
/// anything else.
pub open spec fn leading_strings_of(args: Seq<Option<Seq<char>>>, max: nat) -> Seq<Seq<char>>
    decreases args.len(),
{
    if max == 0 || args.len() == 0 {
        Seq::empty()
    } else {
        match args[0] {
            Some(s) => seq![s] + leading_strings_of(args.skip(1), (max - 1) as nat),
            None => Seq::empty(),
        }
    }
}

pub open spec fn args_model(args: Seq<Option<String>>) -> Seq<Option<Seq<char>>> {
    args.map_values(
        |a: Option<String>|
            match a {
                Some(s) => Some(s@),
                None => None,
            },
    )
}

/// The texts of arguments all known to be strings.
pub open spec fn texts(args: Seq<Option<Seq<char>>>) -> Seq<Seq<char>> {
    args.map_values(|a: Option<Seq<char>>| a->Some_0)
}

/// Splitting off a prefix of `k` string arguments.
proof fn lemma_leading_split(args: Seq<Option<Seq<char>>>, max: nat, k: int)
    requires
        0 <= k <= args.len(),
        k <= max,
        forall|i: int| 0 <= i < k ==> #[trigger] args[i] is Some,
    ensures
        leading_strings_of(args, max) == texts(args.take(k)) + leading_strings_of(
            args.skip(k),
            (max - k) as nat,
        ),
    decreases k,
{
    if k == 0 {
        assert(args.skip(0) =~= args);
        assert(texts(args.take(0)) =~= Seq::<Seq<char>>::empty());
    } else {
        let rest = args.skip(1);
        assert forall|i: int| 0 <= i < k - 1 implies #[trigger] rest[i] is Some by {
            assert(rest[i] == args[i + 1]);
        }
        lemma_leading_split(rest, (max - 1) as nat, k - 1);
        assert(rest.skip(k - 1) =~= args.skip(k));
        assert(args[0] is Some);
        assert(texts(args.take(k)) =~= seq![args[0]->Some_0] + texts(rest.take(k - 1)));
    }
}

/// The leading string arguments, at most `max` of them, stopping at the first
/// argument that is not a string.
pub fn leading_strings(args: &[Option<String>], max: usize) -> (r: Vec<String>)
    ensures
        r@.map_values(|s: String| s@) == leading_strings_of(args_model(args@), max as nat),
        r@.len() <= max,
        r@.len() <= args@.len(),
        forall|i: int| 0 <= i < r@.len() ==> args_model(args@)[i] == Some(#[trigger] r@[i]@),
        r@.len() < max && r@.len() < args@.len() ==> args@[r@.len() as int] is None,
{
    let ghost am = args_model(args@);
    let mut out: Vec<String> = Vec::new();
    let mut k: usize = 0;
    while k < args.len() && k < max
        invariant_except_break
            k <= args.len(),
            k <= max,
            am == args_model(args@),
            out@.len() == k,
            forall|i: int| 0 <= i < k ==> #[trigger] am[i] == Some(out@[i]@),
        ensures
            k <= args.len(),
            k <= max,
            out@.len() == k,
            forall|i: int| 0 <= i < k ==> #[trigger] am[i] == Some(out@[i]@),
            k == args.len() || k == max || am[k as int] is None,
        decreases args.len() - k,
    {
        match &args[k] {
            Some(s) => {
                out.push(s.clone());
            },
            None => {
                break;
            },
        }
        k = k + 1;
    }
    proof {
        assert forall|i: int| 0 <= i < k implies #[trigger] am[i] is Some by {
            assert(am[i] == Some(out@[i]@));
        }
        lemma_leading_split(am, max as nat, k as int);
        assert(leading_strings_of(am.skip(k as int), (max - k) as nat) =~= Seq::<Seq<char>>::empty());
        assert(out@.map_values(|s: String| s@) =~= texts(am.take(k as int)));
    }
    out
}

} // verus!
