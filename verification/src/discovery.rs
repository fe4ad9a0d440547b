//! Where tmux sockets are looked for: which roots and directories are
//! scanned, and which file names look like tmux sockets.
use vstd::prelude::*;
use vstd::string::StringExecFns;

use crate::text::{
    all_digits, chars_are, chars_string, concat2, copy_string, has_infix, has_prefix, is_digit,
    lemma_chars_deep_view, split, split_chars, str_chars, trim, trim_chars, contains_chars,
    occurs_at_chars,
};
use crate::tmux::push_arg;

verus! {

broadcast use lemma_chars_deep_view;

/// `x` added at the end unless it is already there.
pub open spec fn with_unique<A>(s: Seq<A>, x: A) -> Seq<A> {
    if s.contains(x) {
        s
    } else {
        s.push(x)
    }
}

/// Each of `xs` added in turn with `with_unique`.
pub open spec fn with_all_unique<A>(s: Seq<A>, xs: Seq<A>) -> Seq<A>
    decreases xs.len(),
{
    if xs.len() == 0 {
        s
    } else {
        with_unique(with_all_unique(s, xs.drop_last()), xs.last())
    }
}

/// The last normal component of a path, as `Path::file_name` gives it: empty
/// and `.` components are skipped, and a path that ends in `..` has none.
pub open spec fn last_component(parts: Seq<Seq<char>>) -> Option<Seq<char>>
    decreases parts.len(),
{
    if parts.len() == 0 {
        None
    } else if parts.last().len() == 0 || parts.last() == "."@ {
        last_component(parts.drop_last())
    } else if parts.last() == ".."@ {
        None
    } else {
        Some(parts.last())
    }
}

/// `Path::file_name` of a Unix path.
pub open spec fn file_name(path: Seq<char>) -> Option<Seq<char>> {
    last_component(split(path, '/'))
}

/// A directory whose name starts with `tmux`.
pub open spec fn is_tmux_dir_name(path: Seq<char>) -> bool {
    match file_name(path) {
        Some(n) => has_prefix(n, "tmux"@),
        None => false,
    }
}

/// A file whose name contains `tmux`.
pub open spec fn is_likely_tmux_socket_name(path: Seq<char>) -> bool {
    match file_name(path) {
        Some(n) => has_infix(n, "tmux"@),
        None => false,
    }
}

/// `PathBuf::join` with a relative name: a `/` between the two unless the base
/// is empty or already ends in one.
pub open spec fn join_name(base: Seq<char>, name: Seq<char>) -> Seq<char> {
    if base.len() > 0 && base.last() != '/' {
        base + "/"@ + name
    } else {
        base + name
    }
}

/// The file name of a path.
pub fn path_file_name(path: &str) -> (res: Option<String>)
    ensures
        match res {
            Some(n) => file_name(path@) == Some(n@),
            None => file_name(path@) is None,
        },
{
    let chars = str_chars(path);
    let parts = split_chars(chars.as_slice(), '/');
    let ghost pv = parts.deep_view();
    let mut k: usize = parts.len();
    assert(pv.take(parts.len() as int) == pv);
    while k > 0 && (parts[k - 1].len() == 0 || chars_are(parts[k - 1].as_slice(), "."))
        invariant
            k <= parts.len(),
            pv == parts.deep_view(),
            last_component(pv) == last_component(pv.take(k as int)),
        decreases k,
    {
        proof {
            assert(pv.take(k as int).last() == parts[k - 1]@);
            assert(pv.take(k as int).drop_last() == pv.take(k - 1));
        }
        k -= 1;
    }
    proof {
        assert(pv.take(parts.len() as int) == pv);
    }
    if k == 0 {
        assert(pv.take(0) =~= Seq::<Seq<char>>::empty());
        return None;
    }
    proof {
        assert(pv.take(k as int).last() == parts[k - 1]@);
    }
    if chars_are(parts[k - 1].as_slice(), "..") {
        None
    } else {
        Some(chars_string(parts[k - 1].as_slice()))
    }
}

/// Whether the path names a directory called `tmux...`.
pub fn is_tmux_dir(path: &str) -> (res: bool)
    ensures
        res == is_tmux_dir_name(path@),
{
    match path_file_name(path) {
        Some(n) => {
            let v = str_chars(n.as_str());
            let p = str_chars("tmux");
            occurs_at_chars(v.as_slice(), p.as_slice(), 0)
        },
        None => false,
    }
}

/// Whether the path names a file called `...tmux...`.
pub fn is_likely_tmux_socket_path(path: &str) -> (res: bool)
    ensures
        res == is_likely_tmux_socket_name(path@),
{
    match path_file_name(path) {
        Some(n) => {
            let v = str_chars(n.as_str());
            let p = str_chars("tmux");
            contains_chars(v.as_slice(), p.as_slice())
        },
        None => false,
    }
}

/// A path with a relative name appended.
pub fn join_path(base: &str, name: &str) -> (res: String)
    ensures
        res@ == join_name(base@, name@),
{
    let v = str_chars(base);
    if v.len() > 0 && v[v.len() - 1] != '/' {
        let mut s = concat2(base, "/");
        s.append(name);
        s
    } else {
        concat2(base, name)
    }
}

/// A user id as `$UID` or `id -u` give it: trimmed, made of ASCII digits only,
/// and not empty.
pub open spec fn uid_value(value: Seq<char>) -> Option<Seq<char>> {
    let t = trim(value);
    if t.len() > 0 && all_digits(t) {
        Some(t)
    } else {
        None
    }
}

/// The user id in `value`, when it is one.
pub fn valid_uid(value: &str) -> (res: Option<String>)
    ensures
        match res {
            Some(u) => uid_value(value@) == Some(u@),
            None => uid_value(value@) is None,
        },
{
    let v = str_chars(value);
    let t = trim_chars(v.as_slice());
    if t.len() == 0 {
        return None;
    }
    let mut i: usize = 0;
    while i < t.len()
        invariant
            i <= t.len(),
            t@ == trim(value@),
            forall|j: int| 0 <= j < i ==> is_digit(#[trigger] t@[j]),
        decreases t.len() - i,
    {
        if !('0' <= t[i] && t[i] <= '9') {
            assert(!is_digit(t@[i as int]));
            assert(!all_digits(t@));
            return None;
        }
        i += 1;
    }
    Some(chars_string(t.as_slice()))
}

/// Adds a path unless the list already holds it.
pub fn push_unique_path(paths: &mut Vec<String>, path: String)
    ensures
        final(paths).deep_view() == with_unique(old(paths).deep_view(), path@),
{
    let ghost pv = paths.deep_view();
    let mut i: usize = 0;
    while i < paths.len()
        invariant
            i <= paths.len(),
            pv == paths.deep_view(),
            forall|j: int| 0 <= j < i ==> pv[j] != path@,
        decreases paths.len() - i,
    {
        if paths[i].eq(&path) {
            assert(pv[i as int] == path@);
            assert(pv.contains(path@));
            return;
        }
        i += 1;
    }
    assert(!pv.contains(path@));
    paths.push(path);
    assert(paths.deep_view() =~= pv.push(path@));
}

pub open spec fn opt_list(o: Option<Seq<char>>) -> Seq<Seq<char>> {
    match o {
        Some(p) => seq![p],
        None => seq![],
    }
}

pub open spec fn opt_str(o: Option<&str>) -> Option<Seq<char>> {
    match o {
        Some(s) => Some(s@),
        None => None,
    }
}

/// The directories that hold sockets, or directories of sockets: the extra
/// ones, the temporary directory, `/tmp`, `/private/tmp`, `$TMUX_TMPDIR`,
/// `$TMPDIR`, `$XDG_RUNTIME_DIR` and `/run/user/<uid>`, each once.
pub open spec fn root_list(
    extra: Seq<Seq<char>>,
    temp_dir: Seq<char>,
    tmux_tmpdir: Option<Seq<char>>,
    tmpdir: Option<Seq<char>>,
    xdg_runtime_dir: Option<Seq<char>>,
    uid: Option<Seq<char>>,
) -> Seq<Seq<char>> {
    with_all_unique(
        seq![],
        extra + seq![temp_dir, "/tmp"@, "/private/tmp"@] + opt_list(tmux_tmpdir) + opt_list(tmpdir)
            + opt_list(xdg_runtime_dir) + match uid {
            Some(u) => seq!["/run/user/"@ + u],
            None => seq![],
        },
    )
}

pub proof fn lemma_with_all_unique_step<A>(s: Seq<A>, xs: Seq<A>, i: int)
    requires
        0 <= i < xs.len(),
    ensures
        with_all_unique(s, xs.take(i + 1)) == with_unique(with_all_unique(s, xs.take(i)), xs[i]),
{
    assert(xs.take(i + 1).drop_last() == xs.take(i));
}

/// Adds each path unless the list holds it.
pub fn push_all_paths(paths: &mut Vec<String>, more: &[String])
    ensures
        final(paths).deep_view() == with_all_unique(old(paths).deep_view(), more.deep_view()),
{
    let ghost start = paths.deep_view();
    let mut i: usize = 0;
    assert(more.deep_view().take(0) =~= Seq::<Seq<char>>::empty());
    while i < more.len()
        invariant
            i <= more.len(),
            paths.deep_view() == with_all_unique(start, more.deep_view().take(i as int)),
        decreases more.len() - i,
    {
        proof {
            lemma_with_all_unique_step(start, more.deep_view(), i as int);
        }
        push_unique_path(paths, copy_string(&more[i]));
        i += 1;
    }
    assert(more.deep_view().take(more.len() as int) == more.deep_view());
}

fn push_opt(v: &mut Vec<String>, o: Option<&str>)
    ensures
        final(v).deep_view() == old(v).deep_view() + opt_list(opt_str(o)),
{
    match o {
        Some(s) => {
            let ghost before = v.deep_view();
            push_arg(v, s);
            assert(v.deep_view() =~= before + opt_list(opt_str(o)));
        },
        None => {
            assert(v.deep_view() =~= v.deep_view() + opt_list(opt_str(o)));
        },
    }
}

/// The socket roots, in the order they are scanned.
pub fn socket_roots(
    extra_socket_dirs: &[String],
    temp_dir: &str,
    tmux_tmpdir: Option<&str>,
    tmpdir: Option<&str>,
    xdg_runtime_dir: Option<&str>,
    uid: Option<&str>,
) -> (res: Vec<String>)
    ensures
        res.deep_view() == root_list(
            extra_socket_dirs.deep_view(),
            temp_dir@,
            opt_str(tmux_tmpdir),
            opt_str(tmpdir),
            opt_str(xdg_runtime_dir),
            opt_str(uid),
        ),
{
    let mut all: Vec<String> = Vec::new();
    let mut i: usize = 0;
    while i < extra_socket_dirs.len()
        invariant
            i <= extra_socket_dirs.len(),
            all.deep_view() == extra_socket_dirs.deep_view().take(i as int),
        decreases extra_socket_dirs.len() - i,
    {
        push_arg(&mut all, extra_socket_dirs[i].as_str());
        assert(extra_socket_dirs.deep_view().take(i + 1) == extra_socket_dirs.deep_view().take(
            i as int,
        ).push(extra_socket_dirs[i as int]@));
        i += 1;
    }
    assert(extra_socket_dirs.deep_view().take(extra_socket_dirs.len() as int)
        == extra_socket_dirs.deep_view());
    let ghost e = all.deep_view();
    push_arg(&mut all, temp_dir);
    push_arg(&mut all, "/tmp");
    push_arg(&mut all, "/private/tmp");
    assert(all.deep_view() =~= e + seq![temp_dir@, "/tmp"@, "/private/tmp"@]);
    push_opt(&mut all, tmux_tmpdir);
    push_opt(&mut all, tmpdir);
    push_opt(&mut all, xdg_runtime_dir);
    let ghost before_uid = all.deep_view();
    match uid {
        Some(u) => {
            let run = concat2("/run/user/", u);
            push_arg(&mut all, run.as_str());
        },
        None => {},
    }
    assert(all.deep_view() =~= extra_socket_dirs.deep_view() + seq![
        temp_dir@,
        "/tmp"@,
        "/private/tmp"@,
    ] + opt_list(opt_str(tmux_tmpdir)) + opt_list(opt_str(tmpdir)) + opt_list(
        opt_str(xdg_runtime_dir),
    ) + match opt_str(uid) {
        Some(u) => seq!["/run/user/"@ + u],
        None => seq![],
    });
    let mut roots: Vec<String> = Vec::new();
    assert(roots.deep_view() =~= Seq::<Seq<char>>::empty());
    push_all_paths(&mut roots, all.as_slice());
    roots
}

/// The tmux subdirectories among `entries`.
pub open spec fn tmux_dirs_among(entries: Seq<Seq<char>>) -> Seq<Seq<char>>
    decreases entries.len(),
{
    if entries.len() == 0 {
        seq![]
    } else {
        let rest = tmux_dirs_among(entries.drop_last());
        if is_tmux_dir_name(entries.last()) {
            rest.push(entries.last())
        } else {
            rest
        }
    }
}

/// What one root adds to the socket directories: itself when it is a tmux
/// directory, `<root>/tmux-<uid>`, `<root>/tmux`, then its tmux
/// subdirectories.
pub open spec fn root_dirs(root: Seq<char>, uid: Option<Seq<char>>, subdirs: Seq<Seq<char>>) -> Seq<
    Seq<char>,
> {
    (if is_tmux_dir_name(root) {
        seq![root]
    } else {
        seq![]
    }) + match uid {
        Some(u) => seq![join_name(root, "tmux-"@ + u)],
        None => seq![],
    } + seq![join_name(root, "tmux"@)] + tmux_dirs_among(subdirs)
}

/// The directories of every root, each once.
pub open spec fn all_root_dirs(roots: Seq<Seq<char>>, uid: Option<Seq<char>>, subdirs: Seq<
    Seq<Seq<char>>,
>) -> Seq<Seq<char>>
    decreases roots.len(),
{
    if roots.len() == 0 {
        seq![]
    } else {
        with_all_unique(
            all_root_dirs(roots.drop_last(), uid, subdirs),
            root_dirs(roots.last(), uid, subdirs[roots.len() - 1]),
        )
    }
}

/// The directories of every root, then the directory of the socket that
/// `$TMUX` names; each once.
pub open spec fn dirs_list(
    roots: Seq<Seq<char>>,
    uid: Option<Seq<char>>,
    subdirs: Seq<Seq<Seq<char>>>,
    env_socket_dir: Option<Seq<char>>,
) -> Seq<Seq<char>> {
    with_all_unique(all_root_dirs(roots, uid, subdirs), opt_list(env_socket_dir))
}

fn root_dirs_exec(root: &str, uid: Option<&str>, subdirs: &[String]) -> (res: Vec<String>)
    ensures
        res.deep_view() == root_dirs(root@, opt_str(uid), subdirs.deep_view()),
{
    let mut res: Vec<String> = Vec::new();
    assert(res.deep_view() =~= Seq::<Seq<char>>::empty());
    if is_tmux_dir(root) {
        push_arg(&mut res, root);
    }
    let ghost a = res.deep_view();
    match uid {
        Some(u) => {
            let name = concat2("tmux-", u);
            let p = join_path(root, name.as_str());
            push_arg(&mut res, p.as_str());
        },
        None => {},
    }
    let t = join_path(root, "tmux");
    push_arg(&mut res, t.as_str());
    let ghost b = res.deep_view();
    let ghost sv = subdirs.deep_view();
    let mut i: usize = 0;
    assert(sv.take(0) =~= Seq::<Seq<char>>::empty());
    assert(b + tmux_dirs_among(sv.take(0)) =~= b);
    while i < subdirs.len()
        invariant
            i <= subdirs.len(),
            sv == subdirs.deep_view(),
            res.deep_view() == b + tmux_dirs_among(sv.take(i as int)),
        decreases subdirs.len() - i,
    {
        assert(sv.take(i + 1).drop_last() == sv.take(i as int));
        assert(sv.take(i + 1).last() == subdirs[i as int]@);
        if is_tmux_dir(subdirs[i].as_str()) {
            let ghost before = res.deep_view();
            push_arg(&mut res, subdirs[i].as_str());
            assert(res.deep_view() =~= b + tmux_dirs_among(sv.take(i + 1)));
        }
        i += 1;
    }
    assert(sv.take(subdirs.len() as int) == sv);
    assert(res.deep_view() =~= root_dirs(root@, opt_str(uid), sv));
    res
}

/// The socket directories: for each root (with `subdirs[i]` the directories
/// found in `roots[i]`), what it adds, each directory once; then the
/// directory of `$TMUX`'s socket, when there is one.
pub fn socket_dirs(
    roots: &[String],
    uid: Option<&str>,
    subdirs: &[Vec<String>],
    env_socket_dir: Option<&str>,
) -> (res: Vec<String>)
    requires
        subdirs.len() == roots.len(),
    ensures
        res.deep_view() == dirs_list(
            roots.deep_view(),
            opt_str(uid),
            subdirs.deep_view(),
            opt_str(env_socket_dir),
        ),
{
    let ghost rv = roots.deep_view();
    let ghost sv = subdirs.deep_view();
    let mut dirs: Vec<String> = Vec::new();
    let mut i: usize = 0;
    assert(dirs.deep_view() =~= Seq::<Seq<char>>::empty());
    assert(rv.take(0) =~= Seq::<Seq<char>>::empty());
    while i < roots.len()
        invariant
            i <= roots.len(),
            subdirs.len() == roots.len(),
            rv == roots.deep_view(),
            sv == subdirs.deep_view(),
            dirs.deep_view() == all_root_dirs(rv.take(i as int), opt_str(uid), sv),
        decreases roots.len() - i,
    {
        let added = root_dirs_exec(roots[i].as_str(), uid, subdirs[i].as_slice());
        proof {
            assert(rv.take(i + 1).drop_last() == rv.take(i as int));
            assert(rv.take(i + 1).last() == roots[i as int]@);
            assert(sv[i as int] == subdirs[i as int].deep_view());
        }
        push_all_paths(&mut dirs, added.as_slice());
        i += 1;
    }
    assert(rv.take(roots.len() as int) == rv);
    let ghost before = dirs.deep_view();
    match env_socket_dir {
        Some(d) => {
            push_unique_path(&mut dirs, d.to_string());
            assert(opt_list(opt_str(env_socket_dir)).drop_last() =~= Seq::<Seq<char>>::empty());
            assert(opt_list(opt_str(env_socket_dir)).last() == d@);
            assert(with_all_unique(before, opt_list(opt_str(env_socket_dir))) == with_unique(
                with_all_unique(before, Seq::<Seq<char>>::empty()),
                d@,
            ));
        },
        None => {
            assert(with_all_unique(before, opt_list(opt_str(env_socket_dir))) == before);
        },
    }
    assert(dirs.deep_view() == dirs_list(rv, opt_str(uid), sv, opt_str(env_socket_dir)));
    dirs
}

} // verus!
