//! The single-instance lock: a pid file that a new instance reads to stop
//! the previous one before taking it over.
use vstd::prelude::*;
use crate::paths::{path_join, path_joined};
use crate::text::{chars_of, decimal, parse_integer, parse_integer_exec, push_decimal, trim, trim_range};

verus! {

/// The pid file of the running instance.
pub struct InstanceLock {
    pub path: String,
}

impl InstanceLock {
    /// The lock file under the home directory: `.yappr.lock`.
    pub fn under_home(home: &str) -> (r: InstanceLock)
        ensures
            r.path@ == path_joined(home@, ".yappr.lock"@),
            home@.len() > 0 && home@.last() != '/' ==> r.path@ == home@ + "/.yappr.lock"@,
    {
        proof {
            reveal_strlit(".yappr.lock");
            reveal_strlit("/.yappr.lock");
        }
        let path = path_join(home, ".yappr.lock");
        assert(home@ + seq!['/'] + ".yappr.lock"@ =~= home@ + "/.yappr.lock"@);
        InstanceLock { path }
    }
}

/// The pid a lock file holds: its text, trimmed, read as an `i32`.
pub open spec fn pid_in(raw: Seq<char>) -> Option<int> {
    parse_integer(trim(raw), true, i32::MIN as int, i32::MAX as int)
}

/// The pid written in a lock file, if it holds one.
pub fn previous_pid(raw: &str) -> (r: Option<i32>)
    ensures
        r matches Some(p) ==> pid_in(raw@) == Some(p as int),
        r is None ==> pid_in(raw@) is None,
{
    let v = chars_of(raw);
    let (a, b) = trim_range(&v, 0, v.len());
    assert(v@.subrange(0, v@.len() as int) =~= v@);
    let mut t: Vec<char> = Vec::new();
    let mut i = a;
    while i < b
        invariant
            a <= i <= b <= v@.len(),
            t@ == v@.subrange(a as int, i as int),
        decreases b - i,
    {
        t.push(v[i]);
        i = i + 1;
        assert(t@ =~= v@.subrange(a as int, i as int));
    }
    match parse_integer_exec(&t, true, i32::MIN as i128, i32::MAX as i128) {
        Some(p) => Some(p as i32),
        None => None,
    }
}

/// Whether the previous instance must be stopped: its pid is not this
/// process's (as an `i32`) and it is still alive.
pub fn should_terminate(pid: i32, own_pid: u32, alive: bool) -> (r: bool)
    ensures
        r == (pid != (own_pid as i32) && alive),
{
    let own: i32 = #[verifier::truncate] (own_pid as i32);
    pid != own && alive
}

/// What the lock file holds: the pid and a newline.
pub fn pid_line(pid: u32) -> (r: String)
    ensures
        r@ == decimal(pid as nat) + seq!['\n'],
{
    let mut s = String::new();
    push_decimal(&mut s, pid as u64);
    crate::text::push_char(&mut s, '\n');
    s
}

/// How many times the previous instance is checked for exit, a tenth of a
/// second apart, before it is killed.
pub const EXIT_CHECKS: u32 = 20;

} // verus!
