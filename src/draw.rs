use vstd::prelude::*;
use rand::Rng;

verus! {

/// Relies on `rand::thread_rng` and `rand::Rng::gen_range` (rand 0.7): a
/// value drawn from `[0, bound)`. `gen_range` panics on an empty range, so
/// `bound` must be positive.
#[verifier::external_body]
fn random_below(bound: usize) -> (r: usize)
    requires
        bound > 0,
    ensures
        r < bound,
{
    rand::thread_rng().gen_range(0, bound)
}

/// Whether `s` is a lobby code: four upper-case letters.
pub open spec fn is_lobby_code(s: Seq<char>) -> bool {
    s.len() == 4 && forall|i: int| 0 <= i < 4 ==> 'A' <= #[trigger] s[i] <= 'Z'
}

/// Random draws for handing out `n` roles without replacement: the k-th
/// draw picks among the `n - k` roles still left.
pub fn random_draws(n: usize) -> (r: Vec<usize>)
    ensures
        r@.len() == n,
        forall|k: int| 0 <= k < n ==> #[trigger] r@[k] < n - k,
{
    let mut r: Vec<usize> = Vec::new();
    let mut k: usize = 0;
    while k < n
        invariant
            k <= n,
            r@.len() == k,
            forall|j: int| 0 <= j < k ==> #[trigger] r@[j] < n - j,
        decreases n - k,
    {
        let d = random_below(n - k);
        r.push(d);
        k = k + 1;
    }
    r
}

/// The letters a lobby code is made of.
pub open spec fn code_letters() -> Seq<char> {
    "ABCDEFGHIJKLMNOPQRSTUVWXYZ"@
}

/// The lobby code whose i-th letter is the letter at `d[i]` of the alphabet.
pub fn code_from_draws(d: &Vec<usize>) -> (r: String)
    requires
        d@.len() == 4,
        forall|i: int| 0 <= i < 4 ==> #[trigger] d@[i] < 26,
    ensures
        r@.len() == 4,
        forall|i: int| 0 <= i < 4 ==> #[trigger] r@[i] == code_letters()[d@[i] as int],
        is_lobby_code(r@),
{
    let letters = "ABCDEFGHIJKLMNOPQRSTUVWXYZ";
    proof {
        reveal_strlit("ABCDEFGHIJKLMNOPQRSTUVWXYZ");
    }
    assert(letters@.len() == 26);
    assert(forall|i: int| 0 <= i < 26 ==> 'A' <= #[trigger] letters@[i] <= 'Z');
    let mut code = String::new();
    let mut k: usize = 0;
    while k < 4
        invariant
            k <= 4,
            d@.len() == 4,
            forall|i: int| 0 <= i < 4 ==> #[trigger] d@[i] < 26,
            code@.len() == k,
            letters@ == code_letters(),
            letters@.len() == 26,
            forall|i: int| 0 <= i < 26 ==> 'A' <= #[trigger] letters@[i] <= 'Z',
            forall|i: int| 0 <= i < k ==> #[trigger] code@[i] == letters@[d@[i] as int],
        decreases 4 - k,
    {
        let i = d[k];
        let letter = letters.substring_char(i, i + 1);
        assert(letter@[0] == letters@[i as int]);
        let ghost before = code@;
        code.append(letter);
        assert(code@[k as int] == letters@[i as int]);
        assert(forall|j: int| 0 <= j < k ==> code@[j] == before[j]);
        k = k + 1;
    }
    assert forall|i: int| 0 <= i < 4 implies 'A' <= #[trigger] code@[i] <= 'Z' by {
        assert(code@[i] == letters@[d@[i] as int]);
    }
    code
}

/// A fresh lobby code, of four letters drawn at random.
pub fn create_random_code() -> (r: String)
    ensures
        is_lobby_code(r@),
{
    let mut d: Vec<usize> = Vec::new();
    let mut k: usize = 0;
    while k < 4
        invariant
            k <= 4,
            d@.len() == k,
            forall|i: int| 0 <= i < k ==> #[trigger] d@[i] < 26,
        decreases 4 - k,
    {
        d.push(random_below(26));
        k = k + 1;
    }
    code_from_draws(&d)
}

} // verus!
