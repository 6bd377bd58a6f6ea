//! The thread pool that runs the tasks.
use vstd::prelude::*;
use vstd::string::{to_string_from_display_ensures, StringExecFns};

use crate::error::{Result, TantivyError};

verus! {

/// The pool of threads of `rayon`.
#[verifier::external_type_specification]
#[verifier::external_body]
pub struct ExThreadPool(rayon::ThreadPool);

/// The error of `rayon` when the threads of a pool cannot be started.
#[verifier::external_type_specification]
#[verifier::external_body]
pub struct ExThreadPoolBuildError(rayon::ThreadPoolBuildError);

/// How many threads `pool` was built with.
pub uninterp spec fn pool_threads(pool: rayon::ThreadPool) -> nat;

/// The name under which the thread of `pool` at `index` was started.
pub uninterp spec fn pool_thread_name(pool: rayon::ThreadPool, index: nat) -> Seq<char>;

/// `built` is an outcome that building a pool of `num_threads` threads named after `prefix` can
/// have, a pool or the reason why there is none.
pub uninterp spec fn can_be_built(
    num_threads: nat,
    prefix: Seq<char>,
    built: std::result::Result<rayon::ThreadPool, rayon::ThreadPoolBuildError>,
) -> bool;

/// The decimal digit `d`.
pub open spec fn digit(d: nat) -> char
    recommends
        d < 10,
{
    ('0' as nat + d) as char
}

/// The decimal digits of `n`, without leading zeros.
pub open spec fn decimal(n: nat) -> Seq<char>
    decreases n,
{
    if n < 10 {
        seq![digit(n)]
    } else {
        decimal(n / 10).push(digit(n % 10))
    }
}

/// The number that `text` denotes when its characters are read as digits in base ten.
pub open spec fn number_of(text: Seq<char>) -> int
    decreases text.len(),
{
    if text.len() == 0 {
        0
    } else {
        10 * number_of(text.drop_last()) + (text.last() as int - '0' as int)
    }
}

/// `text` is the numeral of `n` in base ten: digits that denote `n`, without leading zeros.
pub open spec fn is_numeral(text: Seq<char>, n: nat) -> bool {
    &&& text.len() > 0
    &&& forall|i: int| 0 <= i < text.len() ==> '0' <= #[trigger] text[i] <= '9'
    &&& number_of(text) == n
    &&& text[0] == '0' ==> text.len() == 1
}

/// The decimal digits of a number are its numeral.
pub proof fn lemma_decimal(n: nat)
    ensures
        is_numeral(decimal(n), n),
    decreases n,
{
    reveal_with_fuel(number_of, 2);
    if n < 10 {
        assert(decimal(n).drop_last() == Seq::<char>::empty());
    } else {
        lemma_decimal(n / 10);
        let high = decimal(n / 10);
        assert(decimal(n) == high.push(digit(n % 10)));
        assert(decimal(n).drop_last() == high);
        if high[0] == '0' {
            assert(high.drop_last() == Seq::<char>::empty());
        }
    }
}

/// The largest number of threads that `rayon` can count in one pool.
pub open spec fn max_threads() -> nat {
    if usize::BITS == 64 {
        65535
    } else {
        255
    }
}

/// The number of threads that a request for `num_threads` of them gives: a request for more than
/// `rayon` can count is cut down.
pub open spec fn granted(num_threads: nat) -> nat {
    if num_threads <= max_threads() {
        num_threads
    } else {
        max_threads()
    }
}

/// `pool` has the threads that were asked for, each named by the prefix and its index.
///
/// A request for no particular number leaves the number to the machine and the environment. A pool
/// always has a thread.
pub open spec fn pool_meets(
    num_threads: nat,
    prefix: Seq<char>,
    pool: rayon::ThreadPool,
) -> bool {
    &&& pool_threads(pool) >= 1
    &&& 0 < num_threads ==> pool_threads(pool) == granted(num_threads)
    &&& forall|index: nat|
        index < pool_threads(pool) ==> #[trigger] pool_thread_name(pool, index) == prefix
            + decimal(index)
}

fn digit_text(d: usize) -> (text: &'static str)
    requires
        d < 10,
    ensures
        text@ == seq![digit(d as nat)],
{
    proof {
        reveal_strlit("0");
        reveal_strlit("1");
        reveal_strlit("2");
        reveal_strlit("3");
        reveal_strlit("4");
        reveal_strlit("5");
        reveal_strlit("6");
        reveal_strlit("7");
        reveal_strlit("8");
        reveal_strlit("9");
    }
    match d {
        0 => "0",
        1 => "1",
        2 => "2",
        3 => "3",
        4 => "4",
        5 => "5",
        6 => "6",
        7 => "7",
        8 => "8",
        _ => "9",
    }
}

fn append_decimal(text: &mut String, n: usize)
    ensures
        final(text)@ == old(text)@ + decimal(n as nat),
    decreases n,
{
    if n >= 10 {
        append_decimal(text, n / 10);
    }
    text.append(digit_text(n % 10));
}

/// The name of the thread of a pool at index `num`.
pub fn thread_name(prefix: &str, num: usize) -> (name: String)
    ensures
        name@ == prefix@ + decimal(num as nat),
        is_numeral(name@.skip(prefix@.len() as int), num as nat),
{
    let mut name = String::from_str(prefix);
    append_decimal(&mut name, num);
    proof {
        lemma_decimal(num as nat);
        assert(name@.skip(prefix@.len() as int) == decimal(num as nat));
    }
    name
}

/// Builds a pool with `rayon::ThreadPoolBuilder`: `num_threads`, `thread_name`, `panic_handler` and
/// `build`. Claims that what comes back is an outcome of such a build, and of a pool that was built
/// that it has at least one thread, as many as were asked for up to what `rayon` can count, and that
/// each thread was started under the prefix and its index. Whether the pool can be built is up to
/// the operating system. A name with a null character makes the start of a thread panic, so the
/// prefix has none.
///
/// The panic handler lets a detached task that panics end alone, where `rayon` would otherwise
/// abort the process, so that whoever awaits the task learns that it has no reply.
#[verifier::external_body]
fn build(num_threads: usize, prefix: &'static str) -> (built: std::result::Result<
    rayon::ThreadPool,
    rayon::ThreadPoolBuildError,
>)
    requires
        !prefix@.contains('\0'),
    ensures
        can_be_built(num_threads as nat, prefix@, built),
        built matches Ok(pool) ==> pool_threads(pool) >= 1,
        built matches Ok(pool) ==> 0 < num_threads ==> pool_threads(pool) == granted(
            num_threads as nat,
        ),
        built matches Ok(pool) ==> forall|index: nat|
            index < pool_threads(pool) ==> #[trigger] pool_thread_name(pool, index) == prefix@
                + decimal(index),
{
    rayon::ThreadPoolBuilder::new()
        .num_threads(num_threads)
        .thread_name(move |num| thread_name(prefix, num))
        .panic_handler(|_| {})
        .build()
}

/// `text` is how `cause` reads when it is displayed.
pub open spec fn reads(cause: rayon::ThreadPoolBuildError, text: String) -> bool {
    to_string_from_display_ensures(&cause, text)
}

/// `pool` says what the build said: the pool that was built, or the reason why there is none, in the
/// words of `rayon`.
pub open spec fn tells(
    built: std::result::Result<rayon::ThreadPool, rayon::ThreadPoolBuildError>,
    pool: Result<rayon::ThreadPool>,
) -> bool {
    match built {
        Ok(ready) => pool == Result::<rayon::ThreadPool>::Ok(ready),
        Err(cause) => pool matches Err(TantivyError::SystemError(text)) && reads(cause, text),
    }
}

/// Turns the outcome of a build into one of the library.
pub fn pool_of(
    built: std::result::Result<rayon::ThreadPool, rayon::ThreadPoolBuildError>,
) -> (pool: Result<rayon::ThreadPool>)
    ensures
        tells(built, pool),
        built matches Ok(ready) ==> pool == Result::<rayon::ThreadPool>::Ok(ready),
        built matches Err(cause) ==> (pool matches Err(TantivyError::SystemError(text))
            && to_string_from_display_ensures(&cause, text)),
{
    match built {
        Ok(ready) => Ok(ready),
        Err(cause) => Err(TantivyError::SystemError(cause.to_string())),
    }
}

/// Builds a pool of `num_threads` threads.
pub(crate) fn build_pool(num_threads: usize, prefix: &'static str) -> (pool: Result<
    rayon::ThreadPool,
>)
    requires
        !prefix@.contains('\0'),
    ensures
        pool matches Ok(ready) ==> pool_meets(num_threads as nat, prefix@, ready),
        exists|built: std::result::Result<rayon::ThreadPool, rayon::ThreadPoolBuildError>|
            #[trigger] can_be_built(num_threads as nat, prefix@, built) && tells(built, pool),
{
    pool_of(build(num_threads, prefix))
}

} // verus!
