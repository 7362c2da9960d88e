//! Git through its command line.
//!
//! `GitWrapper` knows the git executable. Each operation is a command line
//! (the program and its arguments, with `-C <repo>` naming the repository)
//! and a reading of what the command printed: success, error text, or the
//! listed branches and tags.
use vstd::prelude::*;
use crate::text::{cat, lines, owned, split_lines, strip_leading, trim, trim_start_matches, trimmed, views};

verus! {

/// Git driven through its command line.
pub struct GitWrapper {
    /// The git executable.
    pub git_exe: String,
}

/// A command to run: the program and its arguments.
pub struct GitCommand {
    pub program: String,
    pub args: Vec<String>,
}

/// What a finished git command reported.
pub struct GitOutput {
    pub success: bool,
    pub stdout: String,
    pub stderr: String,
}

/// The command's arguments as strings.
pub open spec fn command_args(c: GitCommand) -> Seq<Seq<char>> {
    views(c.args@)
}

fn command(program: &String, a: &str, b: &str, c: &str, d: Option<&str>, e: Option<String>) -> (r: GitCommand)
    ensures
        r.program@ == program@,
        command_args(r) == seq![a@, b@, c@] + (match d {
            Some(x) => seq![x@],
            None => Seq::empty(),
        }) + (match e {
            Some(x) => seq![x@],
            None => Seq::empty(),
        }),
{
    let mut args: Vec<String> = Vec::new();
    args.push(owned(a));
    args.push(owned(b));
    args.push(owned(c));
    match d {
        Some(x) => args.push(owned(x)),
        None => {},
    }
    let ghost e_view = match &e {
        Some(x) => seq![x@],
        None => Seq::<Seq<char>>::empty(),
    };
    match e {
        Some(x) => args.push(x),
        None => {},
    }
    let r = GitCommand { program: program.clone(), args };
    assert(command_args(r) =~= seq![a@, b@, c@] + (match d {
        Some(x) => seq![x@],
        None => Seq::empty(),
    }) + e_view);
    r
}

impl GitWrapper {
    /// A wrapper running the given git executable.
    pub fn new(git_exe: String) -> (r: Self)
        ensures
            r.git_exe@ == git_exe@,
    {
        GitWrapper { git_exe }
    }

    /// The git executable.
    pub fn git_exe(&self) -> (r: &String)
        ensures
            r@ == self.git_exe@,
    {
        &self.git_exe
    }

    /// `git clone <url> <target_dir>`.
    pub fn clone(&self, url: &str, target_dir: &str) -> (r: GitCommand)
        ensures
            r.program@ == self.git_exe@,
            command_args(r) == seq!["clone"@, url@, target_dir@],
    {
        let r = command(&self.git_exe, "clone", url, target_dir, None, None);
        assert(command_args(r) =~= seq!["clone"@, url@, target_dir@]);
        r
    }

    /// `git -C <repo_path> checkout <refspec>`.
    pub fn checkout(&self, repo_path: &str, refspec: &str) -> (r: GitCommand)
        ensures
            r.program@ == self.git_exe@,
            command_args(r) == seq!["-C"@, repo_path@, "checkout"@, refspec@],
    {
        let r = command(&self.git_exe, "-C", repo_path, "checkout", Some(refspec), None);
        assert(command_args(r) =~= seq!["-C"@, repo_path@, "checkout"@, refspec@]);
        r
    }

    /// `git -C <repo_path> branch --list`.
    pub fn get_branches(&self, repo_path: &str) -> (r: GitCommand)
        ensures
            r.program@ == self.git_exe@,
            command_args(r) == seq!["-C"@, repo_path@, "branch"@, "--list"@],
    {
        let r = command(&self.git_exe, "-C", repo_path, "branch", Some("--list"), None);
        assert(command_args(r) =~= seq!["-C"@, repo_path@, "branch"@, "--list"@]);
        r
    }

    /// `git -C <repo_path> tag --list`.
    pub fn get_tags(&self, repo_path: &str) -> (r: GitCommand)
        ensures
            r.program@ == self.git_exe@,
            command_args(r) == seq!["-C"@, repo_path@, "tag"@, "--list"@],
    {
        let r = command(&self.git_exe, "-C", repo_path, "tag", Some("--list"), None);
        assert(command_args(r) =~= seq!["-C"@, repo_path@, "tag"@, "--list"@]);
        r
    }

    /// `git -C <repo_path> show-ref --verify refs/heads/<branch_name>`.
    pub fn branch_exists(&self, repo_path: &str, branch_name: &str) -> (r: GitCommand)
        ensures
            r.program@ == self.git_exe@,
            command_args(r) == seq![
                "-C"@,
                repo_path@,
                "show-ref"@,
                "--verify"@,
                "refs/heads/"@ + branch_name@,
            ],
    {
        let r = command(
            &self.git_exe,
            "-C",
            repo_path,
            "show-ref",
            Some("--verify"),
            Some(cat("refs/heads/", branch_name)),
        );
        assert(command_args(r) =~= seq![
            "-C"@,
            repo_path@,
            "show-ref"@,
            "--verify"@,
            "refs/heads/"@ + branch_name@,
        ]);
        r
    }
}

// ───────────────────────────── reading the output ──────────────────────

/// `Ok` when the command succeeded, else the error: `prefix` followed by
/// what the command wrote to its error output.
pub open spec fn outcome(o: GitOutput, prefix: Seq<char>, r: Result<(), String>) -> bool {
    if o.success {
        r is Ok
    } else {
        r matches Err(e) && e@ == prefix + o.stderr@
    }
}

fn failure(prefix: &str, o: &GitOutput) -> (r: String)
    ensures
        r@ == prefix@ + o.stderr@,
{
    cat(prefix, o.stderr.as_str())
}

/// The outcome of `clone`.
pub fn clone_outcome(o: &GitOutput) -> (r: Result<(), String>)
    ensures
        outcome(*o, "Git clone failed: "@, r),
{
    if o.success {
        Ok(())
    } else {
        Err(failure("Git clone failed: ", o))
    }
}

/// The outcome of `checkout`.
pub fn checkout_outcome(o: &GitOutput) -> (r: Result<(), String>)
    ensures
        outcome(*o, "Git checkout failed: "@, r),
{
    if o.success {
        Ok(())
    } else {
        Err(failure("Git checkout failed: ", o))
    }
}

/// A listed branch name: the line trimmed, without the `* ` that marks
/// the current branch.
pub open spec fn branch_of_line(l: Seq<char>) -> Seq<char> {
    trim_start_matches(trim(l), "* "@)
}

/// The branches listed by `get_branches`, one per output line, or its
/// error.
pub fn branches_outcome(o: &GitOutput) -> (r: Result<Vec<String>, String>)
    ensures
        o.success ==> (r matches Ok(v) && views(v@) == lines(o.stdout@).map_values(
            |l: Seq<char>| branch_of_line(l),
        )),
        !o.success ==> (r matches Err(e) && e@ == "Git branch list failed: "@ + o.stderr@),
{
    if !o.success {
        return Err(failure("Git branch list failed: ", o));
    }
    let ls = split_lines(o.stdout.as_str());
    let mut out: Vec<String> = Vec::new();
    for i in 0..ls.len()
        invariant
            views(ls@) == lines(o.stdout@),
            views(out@) == views(ls@).take(i as int).map_values(|l: Seq<char>| branch_of_line(l)),
    {
        let t = trimmed(ls[i].as_str());
        let ghost before = views(out@);
        out.push(strip_leading(t.as_str(), "* "));
        assert(views(ls@)[i as int] == ls@[i as int]@);
        assert(views(out@) =~= before.push(branch_of_line(ls@[i as int]@)));
        assert(views(out@) =~= views(ls@).take(i + 1).map_values(|l: Seq<char>| branch_of_line(l)));
    }
    assert(views(ls@).take(ls.len() as int) =~= views(ls@));
    Ok(out)
}

/// The tags listed by `get_tags`, one trimmed output line each, or its
/// error.
pub fn tags_outcome(o: &GitOutput) -> (r: Result<Vec<String>, String>)
    ensures
        o.success ==> (r matches Ok(v) && views(v@) == lines(o.stdout@).map_values(|l: Seq<char>| trim(l))),
        !o.success ==> (r matches Err(e) && e@ == "Git tag list failed: "@ + o.stderr@),
{
    if !o.success {
        return Err(failure("Git tag list failed: ", o));
    }
    let ls = split_lines(o.stdout.as_str());
    let mut out: Vec<String> = Vec::new();
    for i in 0..ls.len()
        invariant
            views(ls@) == lines(o.stdout@),
            views(out@) == views(ls@).take(i as int).map_values(|l: Seq<char>| trim(l)),
    {
        let ghost before = views(out@);
        out.push(trimmed(ls[i].as_str()));
        assert(views(ls@)[i as int] == ls@[i as int]@);
        assert(views(out@) =~= before.push(trim(ls@[i as int]@)));
        assert(views(out@) =~= views(ls@).take(i + 1).map_values(|l: Seq<char>| trim(l)));
    }
    assert(views(ls@).take(ls.len() as int) =~= views(ls@));
    Ok(out)
}

/// `branch_exists`: the branch exists exactly when the command succeeded.
pub fn branch_exists_outcome(o: &GitOutput) -> (r: bool)
    ensures
        r == o.success,
{
    o.success
}

} // verus!
