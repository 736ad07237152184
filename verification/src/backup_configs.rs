//! Backing up the two dotfiles (`.gitconfig` and `.zshrc`) into
//! markdown notes: each file's text is wrapped verbatim in a fenced
//! code block and written to a fixed name in the destination folder.
//!
//! The logic here validates the environment inputs, names the exact
//! paths, and renders the markdown; the shell around the library reads
//! the environment and the files and performs the writes.

use vstd::prelude::*;

use crate::errors::ErrorWithContext;

verus! {

/// `dir` and `name` joined with a single path separator.
pub open spec fn joined_path(dir: Seq<char>, name: Seq<char>) -> Seq<char> {
    dir + seq!['/'] + name
}

/// Joins a directory and a file name with a single separator.
pub fn path_join(dir: &str, name: &str) -> (r: String)
    ensures
        r@ == joined_path(dir@, name@),
{
    let mut r = String::from_str(dir);
    r.append("/");
    r.append(name);
    proof {
        reveal_strlit("/");
        assert(r@ =~= joined_path(dir@, name@));
    }
    r
}

/// The fenced code block wrapping `content` verbatim:
/// three backticks and `bash`, a newline, the content, a newline,
/// three closing backticks.
pub open spec fn fenced_markdown(content: Seq<char>) -> Seq<char> {
    seq!['`', '`', '`', 'b', 'a', 's', 'h', '\n'] + content + seq!['\n', '`', '`', '`']
}

/// Wraps a config file's text in a markdown code fence, verbatim.
pub fn render_markdown(content: &str) -> (r: String)
    ensures
        r@ == fenced_markdown(content@),
{
    let mut r = String::from_str("```bash\n");
    r.append(content);
    r.append("\n```");
    proof {
        reveal_strlit("```bash\n");
        reveal_strlit("\n```");
        assert(r@ =~= fenced_markdown(content@));
    }
    r
}

/// One file to back up: where to read it and where to write the
/// rendered markdown.
#[derive(Debug)]
pub struct BackupTarget {
    pub source: String,
    pub destination: String,
}

/// The two backups of one invocation, in the order they are performed.
#[derive(Debug)]
pub struct BackupPlan {
    pub gitconfig: BackupTarget,
    pub zshrc: BackupTarget,
}

/// The user message of the failure that a backup invocation reports
/// before reading or writing anything, if any: each required
/// environment input is named, destination folder first.
pub open spec fn backup_failure(has_home: bool, has_obsidian: bool) -> Option<Seq<char>> {
    if !has_obsidian {
        Some("OBSIDIAN_CONFIG_FOLDER environment variable not set"@)
    } else if !has_home {
        Some("HOME environment variable not set"@)
    } else {
        None
    }
}

/// Plans a backup invocation from the two environment inputs: the
/// home directory and the destination folder.  Fails exactly when one
/// of them is missing, naming it, before any file is read or written.
pub fn run(home: &Option<String>, obsidian: &Option<String>) -> (r: Result<
    BackupPlan,
    ErrorWithContext,
>)
    ensures
        r is Err <==> backup_failure(home is Some, obsidian is Some) is Some,
        (match r {
            Err(e) => {
                &&& e.user_message@ == backup_failure(home is Some, obsidian is Some).unwrap()
                &&& e.technical_details is None
            },
            Ok(plan) => {
                &&& plan.gitconfig.source@ == joined_path(home.unwrap()@, ".gitconfig"@)
                &&& plan.gitconfig.destination@ == joined_path(obsidian.unwrap()@, "gitconfig.md"@)
                &&& plan.zshrc.source@ == joined_path(home.unwrap()@, ".zshrc"@)
                &&& plan.zshrc.destination@ == joined_path(obsidian.unwrap()@, "zshrc.md"@)
            },
        }),
{
    let obsidian_folder = match obsidian {
        None => {
            return Err(
                ErrorWithContext::new(
                    String::from_str("OBSIDIAN_CONFIG_FOLDER environment variable not set"),
                    None,
                ),
            );
        },
        Some(o) => o,
    };
    let home_dir = match home {
        None => {
            return Err(
                ErrorWithContext::new(
                    String::from_str("HOME environment variable not set"),
                    None,
                ),
            );
        },
        Some(h) => h,
    };
    Ok(
        BackupPlan {
            gitconfig: BackupTarget {
                source: path_join(home_dir.as_str(), ".gitconfig"),
                destination: path_join(obsidian_folder.as_str(), "gitconfig.md"),
            },
            zshrc: BackupTarget {
                source: path_join(home_dir.as_str(), ".zshrc"),
                destination: path_join(obsidian_folder.as_str(), "zshrc.md"),
            },
        },
    )
}

} // verus!
