//! The steps of the continuous-integration pipeline: each runs a recipe in
//! the Nix development shell of a container.

use vstd::prelude::*;
use crate::text::{chars_of, string_from_chars};

verus! {

pub const NIX_IMAGE: &'static str = "nixos/nix:latest";

pub const NIX_CONF: &'static str = "experimental-features = nix-command flakes\nsandbox = false";

/// The command line that runs `cmd` in the Nix development shell; with no
/// command, it only enters (and so builds) the shell.
pub open spec fn nix_develop_spec(cmd: Seq<&str>) -> Seq<&str> {
    seq!["nix", "develop"] + (if cmd.len() > 0 {
        seq!["--command"]
    } else {
        seq![]
    }) + cmd
}

pub fn nix_develop<'a>(cmd: &[&'a str]) -> (r: Vec<&'a str>)
    ensures
        r@ == nix_develop_spec(cmd@),
{
    let mut args: Vec<&str> = vec!["nix", "develop"];
    if cmd.len() > 0 {
        args.push("--command");
    }
    let ghost start = args@;
    let n = cmd.len();
    for k in 0..n
        invariant
            n == cmd@.len(),
            args@ == start + cmd@.take(k as int),
    {
        args.push(cmd[k]);
        assert(args@ =~= start + cmd@.take(k + 1));
    }
    assert(cmd@.take(n as int) =~= cmd@);
    assert(args@ =~= nix_develop_spec(cmd@));
    args
}

/// The recipes a push runs, in order.
pub open spec fn push_recipes() -> Seq<&'static str> {
    seq!["css", "ci-fmt", "ci-check", "ci-clippy", "ci-test"]
}

/// The commands a push runs, in order: entering the shell, then each recipe
/// through `just`.
pub fn push_plan() -> (r: Vec<Vec<&'static str>>)
    ensures
        r@.len() == push_recipes().len() + 1,
        r@[0]@ == nix_develop_spec(seq![]),
        forall|k: int|
            0 <= k < push_recipes().len() ==> (#[trigger] r@[k + 1])@ == nix_develop_spec(
                seq!["just", push_recipes()[k]],
            ),
{
    let recipes: [&'static str; 5] = ["css", "ci-fmt", "ci-check", "ci-clippy", "ci-test"];
    assert(recipes@ =~= push_recipes());
    let empty: [&'static str; 0] = [];
    let mut plan: Vec<Vec<&'static str>> = Vec::new();
    let first = nix_develop(&empty);
    assert(empty@ =~= Seq::<&str>::empty());
    plan.push(first);
    for k in 0..5
        invariant
            recipes@ == push_recipes(),
            plan@.len() == k + 1,
            plan@[0]@ == nix_develop_spec(seq![]),
            forall|j: int|
                0 <= j < k ==> (#[trigger] plan@[j + 1])@ == nix_develop_spec(
                    seq!["just", push_recipes()[j]],
                ),
    {
        let step: [&'static str; 2] = ["just", recipes[k]];
        assert(step@ =~= seq!["just", push_recipes()[k as int]]);
        plan.push(nix_develop(&step));
    }
    plan
}

/// `s` without its leading `c` characters (`str::trim_start_matches`).
pub open spec fn trim_leading(s: Seq<char>, c: char) -> Seq<char>
    decreases s.len(),
{
    if s.len() > 0 && s[0] == c {
        trim_leading(s.drop_first(), c)
    } else {
        s
    }
}

/// The version a release tag names: the tag without its leading `v`s.
pub fn release_version(tag: &str) -> (r: String)
    ensures
        r@ == trim_leading(tag@, 'v'),
{
    let cs = chars_of(tag);
    let n = cs.len();
    let mut i: usize = 0;
    assert(cs@.skip(0) =~= cs@);
    while i < n && cs[i] == 'v'
        invariant
            i <= n == cs@.len(),
            trim_leading(tag@, 'v') == trim_leading(cs@.skip(i as int), 'v'),
            cs@ == tag@,
        decreases n - i,
    {
        assert(cs@.skip(i as int).drop_first() =~= cs@.skip(i + 1));
        i = i + 1;
    }
    let mut out: Vec<char> = Vec::new();
    let mut k: usize = i;
    while k < n
        invariant
            i <= k <= n == cs@.len(),
            out@ == cs@.subrange(i as int, k as int),
        decreases n - k,
    {
        out.push(cs[k]);
        k = k + 1;
        assert(out@ =~= cs@.subrange(i as int, k as int));
    }
    assert(cs@.skip(i as int) =~= cs@.subrange(i as int, n as int));
    string_from_chars(out.as_slice())
}

/// The command a release runs to publish the crate.
pub fn publish_command() -> (r: Vec<&'static str>)
    ensures
        r@ == seq!["cargo", "publish", "-p", "tkbar"],
{
    let r = vec!["cargo", "publish", "-p", "tkbar"];
    assert(r@ =~= seq!["cargo", "publish", "-p", "tkbar"]);
    r
}

/// The paths the pipeline leaves out of the source directory it mounts.
pub fn source_excludes() -> (r: Vec<&'static str>)
    ensures
        r@ == seq!["target/", "result", ".git/", ".sass-cache/"],
{
    let r = vec!["target/", "result", ".git/", ".sass-cache/"];
    assert(r@ =~= seq!["target/", "result", ".git/", ".sass-cache/"]);
    r
}

/// The caches the build container mounts: path, then cache volume.
pub fn cache_mounts() -> (r: Vec<(&'static str, &'static str)>)
    ensures
        r@ == seq![
            ("/root/.cache/nix", "tkbar-nix-cache"),
            ("/root/.cargo", "tkbar-cargo-home"),
            ("/src/target", "tkbar-cargo-target"),
        ],
{
    let r = vec![
        ("/root/.cache/nix", "tkbar-nix-cache"),
        ("/root/.cargo", "tkbar-cargo-home"),
        ("/src/target", "tkbar-cargo-target"),
    ];
    assert(r@ =~= seq![
        ("/root/.cache/nix", "tkbar-nix-cache"),
        ("/root/.cargo", "tkbar-cargo-home"),
        ("/src/target", "tkbar-cargo-target"),
    ]);
    r
}

} // verus!
