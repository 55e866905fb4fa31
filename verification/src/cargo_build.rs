//! Building a workspace binary with `cargo build`: the argument list, the
//! command line shown to the user, and the workspace root.
use crate::text::{join_spec, join_strs, str_texts, texts};
use vstd::prelude::*;
use vstd::string::StringExecFns;

verus! {

/// The arguments of `cargo build -p <package> --bin <bin>`, then `--release`
/// when `release` holds, then `--no-default-features --features <a>,<b>,...`
/// when there are features.
pub open spec fn build_args_spec(package: Seq<char>, bin: Seq<char>, features: Seq<Seq<char>>, release: bool) -> Seq<Seq<char>> {
    seq!["build"@, "-p"@, package, "--bin"@, bin] + (if release {
        seq!["--release"@]
    } else {
        Seq::empty()
    }) + (if features.len() > 0 {
        seq!["--no-default-features"@, "--features"@, join_spec(features, ","@)]
    } else {
        Seq::empty()
    })
}

/// The command line `cargo build -p <package> --bin <bin>[ --release][ --no-default-features --features <a>,<b>,...]`.
pub open spec fn build_cmdline_spec(package: Seq<char>, bin: Seq<char>, features: Seq<Seq<char>>, release: bool) -> Seq<char> {
    "cargo build -p "@ + package + " --bin "@ + bin + (if release {
        " --release"@
    } else {
        Seq::empty()
    }) + (if features.len() > 0 {
        " --no-default-features --features "@ + join_spec(features, ","@)
    } else {
        Seq::empty()
    })
}

fn owned(s: &str) -> (r: String)
    ensures
        r@ == s@,
{
    s.to_owned()
}

/// The arguments that `cargo` is given to build `bin` of `package`.
///
/// With features, the default features are switched off so that only the
/// chosen backend is compiled.
pub fn cargo_build_args(package: &str, bin: &str, features: &[&str], release: bool) -> (r: Vec<String>)
    ensures
        texts(r@) == build_args_spec(package@, bin@, str_texts(features@), release),
{
    let mut args: Vec<String> = Vec::new();
    args.push(owned("build"));
    args.push(owned("-p"));
    args.push(owned(package));
    args.push(owned("--bin"));
    args.push(owned(bin));
    if release {
        args.push(owned("--release"));
    }
    if features.len() > 0 {
        args.push(owned("--no-default-features"));
        args.push(owned("--features"));
        args.push(join_strs(features, ","));
    }
    assert(texts(args@) =~= build_args_spec(package@, bin@, str_texts(features@), release));
    args
}

/// The command line that [`cargo_build_args`] stands for, as shown to the user.
pub fn cargo_build_cmdline(package: &str, bin: &str, features: &[&str], release: bool) -> (r: String)
    ensures
        r@ == build_cmdline_spec(package@, bin@, str_texts(features@), release),
{
    let mut line = owned("cargo build -p ");
    line.append(package);
    line.append(" --bin ");
    line.append(bin);
    if release {
        line.append(" --release");
    }
    if features.len() > 0 {
        line.append(" --no-default-features --features ");
        let joined = join_strs(features, ",");
        line.append(joined.as_str());
    }
    line
}

/// `c` is an ordinary path component on every platform: not empty, not `.`
/// or `..`, and free of the separators `/` and `\\` and of the drive mark `:`.
pub open spec fn normal_component(c: Seq<char>) -> bool {
    &&& c.len() > 0
    &&& c != seq!['.']
    &&& c != seq!['.', '.']
    &&& forall|i: int| 0 <= i < c.len() ==> c[i] != '/' && c[i] != '\\' && c[i] != ':'
}

/// `p` names a directory the same way on every platform and ends in a
/// component of its own: not empty, no `\\` or `:` (so no Windows prefix), not
/// starting with `//`, and not ending with `/` or with a `/.` component.
pub open spec fn plain_dir(p: Seq<char>) -> bool {
    &&& p.len() > 0
    &&& p.last() != '/'
    &&& forall|i: int| 0 <= i < p.len() ==> p[i] != '\\' && p[i] != ':'
    &&& !(p.len() >= 2 && p[0] == '/' && p[1] == '/')
    &&& !(p.len() >= 2 && p[p.len() - 2] == '/' && p[p.len() - 1] == '.')
}

/// `k` slashes, as may trail a path.
pub open spec fn trailing_slashes(k: nat) -> Seq<char> {
    Seq::new(k, |i: int| '/')
}

/// The path `/name`.
pub open spec fn root_child(name: Seq<char>) -> Seq<char> {
    seq!['/'] + name
}

/// The path `dir/name`.
pub open spec fn child(dir: Seq<char>, name: Seq<char>) -> Seq<char> {
    dir + seq!['/'] + name
}

/// The parent directory of `path`: `std::path::Path::parent`, read back as a
/// string. Its documentation says that the parent is the path without its
/// final component and that there is none for an empty path (nor for a root
/// or a prefix). So this states that the parent is a strictly shorter prefix
/// of `path`, and that the parent of `dir/name`, with or without trailing
/// slashes (which the documentation says are normalized away), is `dir` where
/// `name` is an ordinary component and `dir` a plain directory path (where no
/// separator run, `.` component or platform prefix is in play). After the
/// documentation's examples (`/foo` gives `/`, a relative path with one
/// component gives the empty path) it also states that `/name` gives `/` and
/// `name` gives the empty path, with or without trailing slashes. What it is
/// on other paths is left unstated.
#[verifier::external_body]
fn path_parent(path: &str) -> (r: Option<String>)
    ensures
        path@.len() == 0 ==> r is None,
        r matches Some(p) ==> p@.len() < path@.len() && p@ == path@.take(p@.len() as int),
        forall|dir: Seq<char>, name: Seq<char>, k: nat|
            #![trigger plain_dir(dir), normal_component(name), trailing_slashes(k)]
            plain_dir(dir) && normal_component(name) && path@ == child(dir, name) + trailing_slashes(k)
                ==> r is Some && r->0@ == dir,
        forall|name: Seq<char>, k: nat|
            #![trigger root_child(name), trailing_slashes(k)]
            normal_component(name) && path@ == root_child(name) + trailing_slashes(k)
                ==> r is Some && r->0@ == seq!['/'],
        forall|name: Seq<char>, k: nat|
            #![trigger normal_component(name), trailing_slashes(k)]
            normal_component(name) && path@ == name + trailing_slashes(k)
                ==> r is Some && r->0@ == Seq::<char>::empty(),
{
    std::path::Path::new(path).parent().map(|p| p.to_string_lossy().into_owned())
}

proof fn lemma_child_is_plain_dir(dir: Seq<char>, name: Seq<char>)
    requires
        plain_dir(dir),
        normal_component(name),
    ensures
        plain_dir(child(dir, name)),
{
    let q = child(dir, name);
    assert(q.last() == name.last());
    assert forall|i: int| 0 <= i < q.len() implies q[i] != '\\' && q[i] != ':' by {
        if i < dir.len() {
            assert(q[i] == dir[i]);
        } else if i > dir.len() {
            assert(q[i] == name[i - dir.len() - 1]);
        }
    }
    assert(q[0] == dir[0]);
    if dir.len() >= 2 {
        assert(q[1] == dir[1]);
    } else {
        assert(q[1] == '/');
        assert(dir[0] == dir.last());
    }
    if q[q.len() - 2] == '/' && q[q.len() - 1] == '.' {
        if name.len() >= 2 {
            assert(q[q.len() - 2] == name[name.len() - 2]);
        } else {
            assert(name =~= seq!['.']);
        }
    }
}

proof fn lemma_component_is_plain_dir(name: Seq<char>)
    requires
        normal_component(name),
    ensures
        plain_dir(name),
        plain_dir(root_child(name)),
{
    let q = root_child(name);
    assert(q.last() == name.last());
    assert forall|i: int| 0 <= i < q.len() implies q[i] != '\\' && q[i] != ':' by {
        if i > 0 {
            assert(q[i] == name[i - 1]);
        }
    }
    assert(q[1] == name[0]);
    if name.len() >= 2 {
        assert(q[q.len() - 2] == name[name.len() - 2]);
    } else {
        assert(q[q.len() - 2] == '/');
        assert(name =~= seq![name[0]]);
    }
}

/// The workspace root: two directory levels above the crate directory
/// `manifest_dir` (`packages/<crate>` lies two levels below it). `None` when
/// `manifest_dir` has fewer than two ancestors. For `root/a/b`, with or
/// without trailing slashes, with `a` and `b` ordinary components, it is
/// `root` where `root` is a plain directory path, `/` for `/a/b` and the
/// empty path for `a/b`.
pub fn workspace_root(manifest_dir: &str) -> (r: Option<String>)
    ensures
        manifest_dir@.len() == 0 ==> r is None,
        r matches Some(p) ==> p@.len() + 2 <= manifest_dir@.len() && p@ == manifest_dir@.take(
            p@.len() as int,
        ),
        forall|root: Seq<char>, a: Seq<char>, b: Seq<char>, k: nat|
            #![trigger plain_dir(root), normal_component(a), normal_component(b), trailing_slashes(k)]
            plain_dir(root) && normal_component(a) && normal_component(b) && manifest_dir@ == child(
                child(root, a),
                b,
            ) + trailing_slashes(k) ==> (r matches Some(p) && p@ == root),
        forall|a: Seq<char>, b: Seq<char>, k: nat|
            #![trigger root_child(a), normal_component(b), trailing_slashes(k)]
            normal_component(a) && normal_component(b) && manifest_dir@ == child(root_child(a), b)
                + trailing_slashes(k) ==> (r matches Some(p) && p@ == seq!['/']),
        forall|a: Seq<char>, b: Seq<char>, k: nat|
            #![trigger normal_component(a), normal_component(b), trailing_slashes(k)]
            normal_component(a) && normal_component(b) && manifest_dir@ == child(a, b)
                + trailing_slashes(k) ==> (r matches Some(p) && p@ == Seq::<char>::empty()),
{
    match path_parent(manifest_dir) {
        Some(up) => {
            let root = path_parent(up.as_str());
            assert(root matches Some(p) ==> manifest_dir@.take(p@.len() as int) =~= up@.take(
                p@.len() as int,
            ));
            assert forall|dir: Seq<char>, a: Seq<char>, b: Seq<char>, k: nat|
                plain_dir(dir) && normal_component(a) && normal_component(b) && manifest_dir@
                    == child(child(dir, a), b) + trailing_slashes(k) implies (root matches Some(p)
                && p@ == dir) by {
                lemma_child_is_plain_dir(dir, a);
                assert(plain_dir(child(dir, a)) && normal_component(b) && trailing_slashes(k)
                    == trailing_slashes(k));
                assert(up@ == child(dir, a));
                assert(child(dir, a) + trailing_slashes(0) =~= child(dir, a));
                assert(plain_dir(dir) && normal_component(a) && trailing_slashes(0)
                    == trailing_slashes(0));
            }
            assert forall|a: Seq<char>, b: Seq<char>, k: nat|
                normal_component(a) && normal_component(b) && manifest_dir@ == child(root_child(a), b)
                    + trailing_slashes(k) implies (root matches Some(p) && p@ == seq!['/']) by {
                lemma_component_is_plain_dir(a);
                assert(plain_dir(root_child(a)) && normal_component(b) && trailing_slashes(k)
                    == trailing_slashes(k));
                assert(up@ == root_child(a));
                assert(root_child(a) + trailing_slashes(0) =~= root_child(a));
                assert(root_child(a) == root_child(a) && trailing_slashes(0) == trailing_slashes(0));
            }
            assert forall|a: Seq<char>, b: Seq<char>, k: nat|
                normal_component(a) && normal_component(b) && manifest_dir@ == child(a, b)
                    + trailing_slashes(k) implies (root matches Some(p) && p@ == Seq::<char>::empty()) by {
                lemma_component_is_plain_dir(a);
                assert(plain_dir(a) && normal_component(b) && trailing_slashes(k) == trailing_slashes(k));
                assert(up@ == a);
                assert(a + trailing_slashes(0) =~= a);
                assert(normal_component(a) && trailing_slashes(0) == trailing_slashes(0));
            }
            root
        },
        None => {
            assert forall|dir: Seq<char>, a: Seq<char>, b: Seq<char>, k: nat|
                plain_dir(dir) && normal_component(a) && normal_component(b) && manifest_dir@
                    == child(child(dir, a), b) + trailing_slashes(k) implies false by {
                lemma_child_is_plain_dir(dir, a);
                assert(plain_dir(child(dir, a)) && normal_component(b) && trailing_slashes(k)
                    == trailing_slashes(k));
            }
            assert forall|a: Seq<char>, b: Seq<char>, k: nat|
                normal_component(a) && normal_component(b) && manifest_dir@ == child(root_child(a), b)
                    + trailing_slashes(k) implies false by {
                lemma_component_is_plain_dir(a);
                assert(plain_dir(root_child(a)) && normal_component(b) && trailing_slashes(k)
                    == trailing_slashes(k));
            }
            assert forall|a: Seq<char>, b: Seq<char>, k: nat|
                normal_component(a) && normal_component(b) && manifest_dir@ == child(a, b)
                    + trailing_slashes(k) implies false by {
                lemma_component_is_plain_dir(a);
                assert(plain_dir(a) && normal_component(b) && trailing_slashes(k) == trailing_slashes(k));
            }
            None
        },
    }
}

/// The feature arguments do not depend on the build profile: with features
/// the argument list ends with `--no-default-features`, `--features` and the
/// features joined by `,` (and the command line with
/// ` --no-default-features --features <a>,<b>`), release or not; without
/// features only `build -p <package> --bin <bin>` (and `--release`) is given. Asking for a release build only
/// adds `--release` after `--bin <bin>`.
pub proof fn lemma_feature_args_independent_of_release(
    package: Seq<char>,
    bin: Seq<char>,
    features: Seq<Seq<char>>,
    release: bool,
)
    ensures
        ({
            let args = build_args_spec(package, bin, features, release);
            let n = args.len();
            &&& features.len() > 0 ==> {
                &&& n >= 8
                &&& args[n - 3] == "--no-default-features"@
                &&& args[n - 2] == "--features"@
                &&& args[n - 1] == join_spec(features, ","@)
                &&& build_cmdline_spec(package, bin, features, release) == build_cmdline_spec(
                    package,
                    bin,
                    Seq::empty(),
                    release,
                ) + " --no-default-features --features "@ + join_spec(features, ","@)
            }
            &&& features.len() == 0 ==> n == (if release {
                6int
            } else {
                5int
            })
            &&& build_args_spec(package, bin, features, true) == build_args_spec(
                package,
                bin,
                features,
                false,
            ).insert(5, "--release"@)
        }),
{
    reveal_strlit("--features");
    reveal_strlit("--no-default-features");
    reveal_strlit("--release");
    reveal_strlit("build");
    reveal_strlit("-p");
    reveal_strlit("--bin");
    let args = build_args_spec(package, bin, features, release);
    if features.len() > 0 {
        reveal_strlit(" --no-default-features --features ");
        assert(build_cmdline_spec(package, bin, features, release) =~= build_cmdline_spec(
            package,
            bin,
            Seq::empty(),
            release,
        ) + " --no-default-features --features "@ + join_spec(features, ","@));
    }
    assert(build_args_spec(package, bin, features, true) =~= build_args_spec(
        package,
        bin,
        features,
        false,
    ).insert(5, "--release"@));
}

proof fn lemma_join_push(a: Seq<Seq<char>>, x: Seq<char>, sep: Seq<char>)
    requires
        a.len() > 0,
    ensures
        join_spec(a.push(x), sep) == join_spec(a, sep) + sep + x,
{
    assert(a.push(x).drop_last() =~= a);
}

/// The command line shown to the user is the command that is run: `cargo`
/// followed by the build arguments, separated by single spaces.
pub proof fn lemma_cmdline_shows_args(package: Seq<char>, bin: Seq<char>, features: Seq<Seq<char>>, release: bool)
    ensures
        build_cmdline_spec(package, bin, features, release) == "cargo "@ + join_spec(
            build_args_spec(package, bin, features, release),
            " "@,
        ),
{
    reveal_strlit("cargo ");
    reveal_strlit(" ");
    reveal_strlit("build");
    reveal_strlit("-p");
    reveal_strlit("--bin");
    reveal_strlit("--release");
    reveal_strlit("--no-default-features");
    reveal_strlit("--features");
    reveal_strlit("cargo build -p ");
    reveal_strlit(" --bin ");
    reveal_strlit(" --release");
    reveal_strlit(" --no-default-features --features ");
    let sp = " "@;
    let s1 = seq!["build"@];
    let s2 = s1.push("-p"@);
    let s3 = s2.push(package);
    let s4 = s3.push("--bin"@);
    let s5 = s4.push(bin);
    lemma_join_push(s1, "-p"@, sp);
    lemma_join_push(s2, package, sp);
    lemma_join_push(s3, "--bin"@, sp);
    lemma_join_push(s4, bin, sp);
    let base = "build"@ + sp + "-p"@ + sp + package + sp + "--bin"@ + sp + bin;
    assert(join_spec(s5, sp) == base);
    assert("cargo "@ + base =~= "cargo build -p "@ + package + " --bin "@ + bin);
    let s6 = if release {
        s5.push("--release"@)
    } else {
        s5
    };
    let rel = if release {
        " --release"@
    } else {
        Seq::empty()
    };
    if release {
        lemma_join_push(s5, "--release"@, sp);
        assert(sp + "--release"@ =~= " --release"@);
    }
    assert(join_spec(s6, sp) =~= base + rel);
    let args = build_args_spec(package, bin, features, release);
    if features.len() > 0 {
        let j = join_spec(features, ","@);
        let s7 = s6.push("--no-default-features"@);
        let s8 = s7.push("--features"@);
        let s9 = s8.push(j);
        lemma_join_push(s6, "--no-default-features"@, sp);
        lemma_join_push(s7, "--features"@, sp);
        lemma_join_push(s8, j, sp);
        assert(args =~= s9);
        assert(sp + "--no-default-features"@ + sp + "--features"@ + sp =~= " --no-default-features --features "@);
        assert(join_spec(s9, sp) =~= base + rel + (" --no-default-features --features "@ + j));
    } else {
        assert(args =~= s6);
    }
}

} // verus!
