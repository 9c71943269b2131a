//! The command line: its options, and the arguments of the build tool's
//! commands that follow from them.

use crate::text::{push_text, same_text, texts};
use vstd::prelude::*;
use vstd::string::*;

verus! {

/// The subcommands, as the build tool hands them over.
#[derive(Debug)]
pub enum Cargo {
    Goodtimes(Args),
}

/// The options of one run.
#[derive(Debug)]
pub struct Args {
    /// Path to the manifest, or to the directory that holds it.
    pub manifest_path: String,
    /// Build profile.
    pub profile: String,
    /// Features to enable.
    pub features: Vec<String>,
    /// Enable all features.
    pub all_features: bool,
    /// Time the packages outside the workspace too.
    pub include_deps: bool,
    /// Do not open the browser.
    pub no_open: bool,
}

impl Default for Args {
    /// The options of a run without arguments: the manifest of the current
    /// directory, the `dev` profile, and nothing else set.
    fn default() -> (r: Self)
        ensures
            r.manifest_path@ == "."@,
            r.profile@ == "dev"@,
            r.features@.len() == 0,
            !r.all_features,
            !r.include_deps,
            !r.no_open,
    {
        Args {
            manifest_path: String::from_str("."),
            profile: String::from_str("dev"),
            features: Vec::new(),
            all_features: false,
            include_deps: false,
            no_open: false,
        }
    }
}

/// The first `upto` of `parts`, with a comma between each two.
pub open spec fn joined(parts: Seq<Seq<char>>, upto: nat) -> Seq<char>
    decreases upto,
{
    if upto == 0 || upto > parts.len() {
        Seq::empty()
    } else if upto == 1 {
        parts[0]
    } else {
        joined(parts, (upto - 1) as nat) + seq![','] + parts[upto - 1]
    }
}

/// The arguments that select the profile: none for `dev`.
pub open spec fn profile_args(profile: Seq<char>) -> Seq<Seq<char>> {
    if profile == "release"@ {
        seq!["--release"@]
    } else if profile != "dev"@ {
        seq!["--profile"@, profile]
    } else {
        Seq::empty()
    }
}

/// The arguments that select the features: all of them, or those listed,
/// or none.
pub open spec fn feature_args(features: Seq<Seq<char>>, all_features: bool) -> Seq<Seq<char>> {
    if all_features {
        seq!["--all-features"@]
    } else if features.len() > 0 {
        seq!["--features"@, joined(features, features.len())]
    } else {
        Seq::empty()
    }
}

/// The arguments of a check of the workspace: the subcommand, the manifest,
/// the profile and the features.
pub open spec fn common_args(
    manifest_path: Seq<char>,
    profile: Seq<char>,
    features: Seq<Seq<char>>,
    all_features: bool,
) -> Seq<Seq<char>> {
    seq!["check"@, "--manifest-path"@, manifest_path] + profile_args(profile) + feature_args(
        features,
        all_features,
    )
}

/// The strings of `parts`, with a comma between each two.
pub fn join_with_commas(parts: &Vec<String>) -> (r: String)
    ensures
        r@ == joined(texts(parts@), parts@.len()),
{
    let mut r = String::new();
    let mut i: usize = 0;
    while i < parts.len()
        invariant
            i <= parts.len(),
            r@ == joined(texts(parts@), i as nat),
        decreases parts.len() - i,
    {
        if i > 0 {
            proof {
                reveal_strlit(",");
            }
            r.append(",");
            assert(","@ =~= seq![',']);
        }
        r.append(parts[i].as_str());
        assert(texts(parts@)[i as int] == parts@[i as int]@);
        assert(r@ =~= joined(texts(parts@), (i + 1) as nat));
        i += 1;
    }
    r
}

/// Adds the arguments of a check of the workspace behind `args`.
pub fn apply_common_args(
    args: &mut Vec<String>,
    manifest_path: &str,
    profile: &str,
    features: &Vec<String>,
    all_features: bool,
)
    ensures
        texts(final(args)@) == texts(old(args)@) + common_args(
            manifest_path@,
            profile@,
            texts(features@),
            all_features,
        ),
{
    let ghost before = texts(args@);
    push_text(args, "check");
    push_text(args, "--manifest-path");
    push_text(args, manifest_path);
    assert(texts(args@) =~= before + seq!["check"@, "--manifest-path"@, manifest_path@]);
    let ghost head = texts(args@);

    if same_text(profile, "release") {
        push_text(args, "--release");
    } else if !same_text(profile, "dev") {
        push_text(args, "--profile");
        push_text(args, profile);
    }
    assert(texts(args@) =~= head + profile_args(profile@));
    let ghost middle = texts(args@);

    if all_features {
        push_text(args, "--all-features");
    } else if features.len() > 0 {
        push_text(args, "--features");
        let list = join_with_commas(features);
        push_text(args, list.as_str());
    }
    assert(texts(args@) =~= middle + feature_args(texts(features@), all_features));
    assert(texts(args@) =~= before + common_args(
        manifest_path@,
        profile@,
        texts(features@),
        all_features,
    ));
}

/// The arguments of the timed build: those of a check, machine-readable
/// messages, and the timing report.
pub open spec fn timed_build_args(
    manifest_path: Seq<char>,
    profile: Seq<char>,
    features: Seq<Seq<char>>,
    all_features: bool,
) -> Seq<Seq<char>> {
    common_args(manifest_path, profile, features, all_features) + seq![
        "--message-format=json"@,
        "--timings"@,
    ]
}

/// The arguments of the timed build.
pub fn build_args(manifest_path: &str, profile: &str, features: &Vec<String>, all_features: bool)
    -> (args: Vec<String>)
    ensures
        texts(args@) == timed_build_args(manifest_path@, profile@, texts(features@), all_features),
{
    let mut args: Vec<String> = Vec::new();
    assert(texts(args@) =~= Seq::<Seq<char>>::empty());
    apply_common_args(&mut args, manifest_path, profile, features, all_features);
    let ghost common = texts(args@);
    assert(common =~= common_args(manifest_path@, profile@, texts(features@), all_features));
    push_text(&mut args, "--message-format=json");
    push_text(&mut args, "--timings");
    assert(texts(args@) =~= common + seq!["--message-format=json"@, "--timings"@]);
    args
}

/// The first `upto` of `packages`, each behind a `-p`.
pub open spec fn package_args(packages: Seq<Seq<char>>, upto: nat) -> Seq<Seq<char>>
    decreases upto,
{
    if upto == 0 || upto > packages.len() {
        Seq::empty()
    } else {
        package_args(packages, (upto - 1) as nat) + seq!["-p"@, packages[upto - 1]]
    }
}

/// The arguments that clean the packages `packages` of the workspace, and
/// nothing else; with no package listed, they clean everything.
pub open spec fn clean_args_of(manifest_path: Seq<char>, packages: Seq<Seq<char>>) -> Seq<
    Seq<char>,
> {
    seq!["clean"@, "--manifest-path"@, manifest_path] + package_args(packages, packages.len())
}

/// The arguments that clean the packages `packages` of the workspace; with
/// no package listed, they clean everything.
pub fn clean_args(manifest_path: &str, packages: &Vec<String>) -> (args: Vec<String>)
    ensures
        texts(args@) == clean_args_of(manifest_path@, texts(packages@)),
{
    let mut args: Vec<String> = Vec::new();
    assert(texts(args@) =~= Seq::<Seq<char>>::empty());
    push_text(&mut args, "clean");
    push_text(&mut args, "--manifest-path");
    push_text(&mut args, manifest_path);
    let ghost head = texts(args@);
    assert(head =~= seq!["clean"@, "--manifest-path"@, manifest_path@]);
    let mut i: usize = 0;
    while i < packages.len()
        invariant
            i <= packages.len(),
            texts(args@) == head + package_args(texts(packages@), i as nat),
        decreases packages.len() - i,
    {
        let ghost done = texts(args@);
        push_text(&mut args, "-p");
        push_text(&mut args, packages[i].as_str());
        assert(texts(packages@)[i as int] == packages@[i as int]@);
        assert(texts(args@) =~= head + package_args(texts(packages@), (i + 1) as nat));
        i += 1;
    }
    args
}

/// What stands at the path given for the manifest.
#[derive(Clone, Copy, Debug, PartialEq, Eq, Structural)]
pub enum PathKind {
    File,
    Directory,
    Missing,
}

/// Where the manifest is.
#[derive(Clone, Copy, Debug, PartialEq, Eq, Structural)]
pub enum ManifestLocation {
    /// The path given is the manifest.
    Given,
    /// The manifest is the `Cargo.toml` in the directory given.
    InDirectory,
}

/// Why no manifest was found.
#[derive(Clone, Copy, Debug, PartialEq, Eq, Structural)]
pub enum ManifestError {
    /// The directory given holds no `Cargo.toml`.
    NoManifest,
    /// Nothing stands at the path given.
    PathMissing,
}

impl ManifestError {
    /// The error in words, for the path `path`.
    pub fn message(&self, path: &str) -> (s: String)
        ensures
            s@ == match *self {
                ManifestError::NoManifest => "no Cargo.toml found in "@ + path@,
                ManifestError::PathMissing => "path does not exist: "@ + path@,
            },
    {
        let mut s = match self {
            ManifestError::NoManifest => String::from_str("no Cargo.toml found in "),
            ManifestError::PathMissing => String::from_str("path does not exist: "),
        };
        s.append(path);
        s
    }
}

/// Decides where the manifest is, from what stands at the path given and
/// whether, if that is a directory, it holds a `Cargo.toml`.
///
/// A file is the manifest itself. A directory stands for the `Cargo.toml` in
/// it, and is refused without one. Anything else is refused.
pub fn resolve_manifest(kind: PathKind, holds_manifest: bool) -> (r: Result<
    ManifestLocation,
    ManifestError,
>)
    ensures
        r == match kind {
            PathKind::File => Ok::<ManifestLocation, ManifestError>(ManifestLocation::Given),
            PathKind::Directory => if holds_manifest {
                Ok::<ManifestLocation, ManifestError>(ManifestLocation::InDirectory)
            } else {
                Err::<ManifestLocation, ManifestError>(ManifestError::NoManifest)
            },
            PathKind::Missing => Err::<ManifestLocation, ManifestError>(ManifestError::PathMissing),
        },
{
    match kind {
        PathKind::File => Ok(ManifestLocation::Given),
        PathKind::Directory => if holds_manifest {
            Ok(ManifestLocation::InDirectory)
        } else {
            Err(ManifestError::NoManifest)
        },
        PathKind::Missing => Err(ManifestError::PathMissing),
    }
}

} // verus!
