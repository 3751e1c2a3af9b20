use vstd::prelude::*;

use crate::errors::SyncError;

verus! {

/// Which remote system a sync targets.
#[derive(Debug, Clone, Copy, PartialEq, Eq)]
pub enum Transport {
    /// A host reached through the mirror tool or a remote shell.
    HostBased,
    /// A cloud bucket reached through the object-store command.
    ObjectStore,
}

/// Which side of the correspondence is the source of a transfer.
#[derive(Debug, Clone, Copy, PartialEq, Eq)]
pub enum Direction {
    /// Local files go to the remote side.
    Push,
    /// Remote files come to the local side.
    Pull,
}

/// Where the list of files to transfer comes from.
#[derive(Debug, Clone, PartialEq, Eq)]
pub enum Feed {
    /// No restriction: the whole tree.
    Unrestricted,
    /// Only files that git tracks, fed through a shell pipeline.
    GitTracked,
    /// Only files named in the given file.
    PipeFile(String),
}

/// A validated combination of sync options, consumed once to synthesize a
/// command line.
#[derive(Debug, Clone, PartialEq, Eq)]
pub struct SyncRequest {
    pub transport: Transport,
    pub direction: Direction,
    pub listing: bool,
    pub feed: Feed,
    pub host: Option<String>,
    pub remote_path: String,
    pub extra_args: Vec<String>,
}

/// No nul character anywhere in `s`; a shell cannot carry one in an argument.
pub open spec fn nul_free_seq(s: Seq<char>) -> bool {
    forall|k: int| 0 <= k < s.len() ==> s[k] != '\u{0}'
}

/// The leading program tokens, fixed by transport and listing mode.
pub open spec fn program_tokens(req: SyncRequest) -> Seq<Seq<char>> {
    match req.transport {
        Transport::ObjectStore => seq![
            "aws"@,
            "--profile"@,
            "mfa"@,
            "s3"@,
            if req.listing {
                "ls"@
            } else {
                "sync"@
            },
        ],
        Transport::HostBased => if !req.listing {
            seq!["rsync"@, "-azsc"@]
        } else {
            seq!["ssh"@, req.host->0@, "ls"@, "-l"@]
        },
    }
}

/// The remote positional argument: the bare resolved path, except for a
/// host-based transfer, where the host is composed into it.
pub open spec fn remote_arg(req: SyncRequest) -> Seq<char> {
    match req.transport {
        Transport::ObjectStore => req.remote_path@,
        Transport::HostBased => if req.listing {
            req.remote_path@
        } else {
            req.host->0@ + seq![':'] + req.remote_path@
        },
    }
}

/// The single file-list token injected for a pipe-file source.  It belongs
/// to the file-transfer path alone: a listing enumerates the remote side and
/// takes no file list.
pub open spec fn feed_tokens(req: SyncRequest) -> Seq<Seq<char>> {
    match req.feed {
        Feed::PipeFile(p) => if req.listing {
            Seq::empty()
        } else {
            seq!["--files-from="@ + p@]
        },
        _ => Seq::empty(),
    }
}

/// The positional operands: only the remote argument when listing, otherwise
/// local and remote ordered by direction.
pub open spec fn operand_tokens(req: SyncRequest) -> Seq<Seq<char>> {
    if req.listing {
        seq![remote_arg(req)]
    } else {
        match req.direction {
            Direction::Pull => seq![remote_arg(req), "./"@],
            Direction::Push => seq!["./"@, remote_arg(req)],
        }
    }
}

/// The full ordered token list of the synthesized command.
pub open spec fn tokens_of(req: SyncRequest) -> Seq<Seq<char>> {
    program_tokens(req) + feed_tokens(req) + req.extra_args.deep_view() + operand_tokens(req)
}

/// What shlex::try_join returns for a given word list.
pub uninterp spec fn shell_joined(tokens: Seq<Seq<char>>) -> Seq<char>;

/// The synthesized command line: the shell-joined token list, with the
/// git-tracked pipeline prefix composed in front when that source is chosen.
pub open spec fn synth_spec(req: SyncRequest) -> Seq<char> {
    if req.feed is GitTracked {
        "git ls-files | "@ + shell_joined(tokens_of(req))
    } else {
        shell_joined(tokens_of(req))
    }
}

/// Why a combination of options is rejected at construction, if it is.
pub open spec fn rejection(
    transport: Transport,
    git: bool,
    pipe: Option<String>,
    host: Option<String>,
) -> Option<Seq<char>> {
    if git && pipe is Some {
        Some("git-tracked and pipe-file sources are mutually exclusive"@)
    } else if transport is ObjectStore && (git || pipe is Some || host is Some) {
        Some("object-store transport cannot take a host or a file-list source"@)
    } else if transport is HostBased && host is None {
        Some("host-based transport needs a target host"@)
    } else {
        None
    }
}

/// The file-list source an accepted combination selects.
pub open spec fn feed_of(git: bool, pipe: Option<String>) -> Feed {
    if git {
        Feed::GitTracked
    } else if pipe is Some {
        Feed::PipeFile(pipe->0)
    } else {
        Feed::Unrestricted
    }
}

impl SyncRequest {
    /// The construction-time invariant: object-store transport excludes a
    /// host and any file-list source, and host-based transport has its host.
    pub open spec fn valid(self) -> bool {
        &&& (self.transport is ObjectStore ==> self.feed is Unrestricted && self.host is None)
        &&& (self.transport is HostBased ==> self.host is Some)
    }

    /// No word of the synthesized command holds a nul character.
    pub open spec fn nul_free(self) -> bool {
        forall|i: int| 0 <= i < tokens_of(self).len() ==> nul_free_seq(#[trigger] tokens_of(self)[i])
    }

    /// Validates a combination of options into a request, rejecting the
    /// mutually exclusive ones with a descriptive error.
    pub fn new(
        transport: Transport,
        direction: Direction,
        listing: bool,
        git: bool,
        pipe: Option<String>,
        host: Option<String>,
        remote_path: String,
        extra_args: Vec<String>,
    ) -> (r: Result<SyncRequest, SyncError>)
        ensures
            match rejection(transport, git, pipe, host) {
                Some(msg) => r matches Err(e) && (e matches SyncError::InvalidCombination {
                    reason,
                } && reason@ == msg),
                None => r matches Ok(q) && q == (SyncRequest {
                    transport,
                    direction,
                    listing,
                    feed: feed_of(git, pipe),
                    host,
                    remote_path,
                    extra_args,
                }) && q.valid(),
            },
    {
        if git && pipe.is_some() {
            return Err(
                SyncError::InvalidCombination {
                    reason: String::from_str(
                        "git-tracked and pipe-file sources are mutually exclusive",
                    ),
                },
            );
        }
        let feed_wanted = git || pipe.is_some();
        match transport {
            Transport::ObjectStore => {
                if feed_wanted || host.is_some() {
                    return Err(
                        SyncError::InvalidCombination {
                            reason: String::from_str(
                                "object-store transport cannot take a host or a file-list source",
                            ),
                        },
                    );
                }
            },
            Transport::HostBased => {
                if host.is_none() {
                    return Err(
                        SyncError::InvalidCombination {
                            reason: String::from_str("host-based transport needs a target host"),
                        },
                    );
                }
            },
        }
        let feed = if git {
            Feed::GitTracked
        } else {
            match pipe {
                Some(p) => Feed::PipeFile(p),
                None => Feed::Unrestricted,
            }
        };
        Ok(SyncRequest { transport, direction, listing, feed, host, remote_path, extra_args })
    }
}

/// The git-tracked and pipe-file sources can never both be carried by one
/// request: a construction that asks for both is rejected as an invalid
/// combination, whatever the other options say.
pub proof fn lemma_git_pipe_exclusive(
    transport: Transport,
    git: bool,
    pipe: Option<String>,
    host: Option<String>,
)
    requires
        git,
        pipe is Some,
    ensures
        rejection(transport, git, pipe, host) == Some(
            "git-tracked and pipe-file sources are mutually exclusive"@,
        ),
{
}

/// A listing command carries exactly one positional operand, the remote
/// argument; a transfer carries exactly two, the remote and the local ones,
/// ordered by direction; they stand after every other token.
pub proof fn lemma_positional_operands(req: SyncRequest)
    ensures
        tokens_of(req) == program_tokens(req) + feed_tokens(req) + req.extra_args.deep_view()
            + operand_tokens(req),
        req.listing ==> operand_tokens(req) == seq![remote_arg(req)] && operand_tokens(
            req,
        ).len() == 1,
        !req.listing && req.direction is Pull ==> operand_tokens(req) == seq![
            remote_arg(req),
            "./"@,
        ],
        !req.listing && req.direction is Push ==> operand_tokens(req) == seq![
            "./"@,
            remote_arg(req),
        ],
        !req.listing ==> operand_tokens(req).len() == 2,
{
}

/// Command synthesis is a pure function of the request value: equal requests
/// synthesize equal command lines.
pub proof fn lemma_synthesis_deterministic(a: SyncRequest, b: SyncRequest)
    requires
        a == b,
    ensures
        synth_spec(a) == synth_spec(b),
{
}

/// Relies on shlex::try_join: it quotes each word so a POSIX shell reads it
/// back as that one word, separates consecutive words with single spaces,
/// and depends on the words alone; its only error is a word holding a nul
/// byte, which the precondition rules out.
#[verifier::external_body]
fn shell_join(tokens: &Vec<String>) -> (r: String)
    requires
        forall|i: int| 0 <= i < tokens.deep_view().len() ==> nul_free_seq(
            #[trigger] tokens.deep_view()[i],
        ),
    ensures
        r@ == shell_joined(tokens.deep_view()),
{
    shlex::try_join(tokens.iter().map(|s| s.as_str())).unwrap()
}

fn str_nul_free(s: &str) -> (r: bool)
    ensures
        r == nul_free_seq(s@),
{
    let n = s.unicode_len();
    let mut i: usize = 0;
    while i < n
        invariant
            0 <= i <= n,
            n == s@.len(),
            forall|k: int| 0 <= k < i ==> s@[k] != '\u{0}',
        decreases n - i,
    {
        if s.get_char(i) == '\u{0}' {
            return false;
        }
        i = i + 1;
    }
    true
}

/// Builds the ordered token list of the command, before shell joining.
pub fn synthesize_tokens(req: &SyncRequest) -> (r: Vec<String>)
    requires
        req.valid(),
    ensures
        r.deep_view() == tokens_of(*req),
{
    let mut toks: Vec<String> = Vec::new();
    let remote: String;
    match req.transport {
        Transport::ObjectStore => {
            toks.push(String::from_str("aws"));
            toks.push(String::from_str("--profile"));
            toks.push(String::from_str("mfa"));
            toks.push(String::from_str("s3"));
            if req.listing {
                toks.push(String::from_str("ls"));
            } else {
                toks.push(String::from_str("sync"));
            }
            remote = req.remote_path.clone();
        },
        Transport::HostBased => {
            let host: &String = match &req.host {
                Some(h) => h,
                None => {
                    proof {
                        assert(false);
                    }
                    &req.remote_path
                },
            };
            if !req.listing {
                toks.push(String::from_str("rsync"));
                toks.push(String::from_str("-azsc"));
                proof {
                    reveal_strlit(":");
                }
                let r0 = host.clone().concat(":").concat(req.remote_path.as_str());
                proof {
                    assert(r0@ =~= req.host->0@ + seq![':'] + req.remote_path@);
                }
                remote = r0;
            } else {
                toks.push(String::from_str("ssh"));
                toks.push(host.clone());
                toks.push(String::from_str("ls"));
                toks.push(String::from_str("-l"));
                remote = req.remote_path.clone();
            }
        },
    }
    proof {
        assert(toks.deep_view() =~~= program_tokens(*req));
        assert(remote@ == remote_arg(*req));
    }
    if !req.listing {
        if let Feed::PipeFile(p) = &req.feed {
            toks.push(String::from_str("--files-from=").concat(p.as_str()));
        }
    }
    proof {
        assert(toks.deep_view() =~~= program_tokens(*req) + feed_tokens(*req));
    }
    let mut j: usize = 0;
    while j < req.extra_args.len()
        invariant
            j <= req.extra_args@.len(),
            toks.deep_view() =~~= program_tokens(*req) + feed_tokens(*req)
                + req.extra_args.deep_view().take(j as int),
        decreases req.extra_args@.len() - j,
    {
        let ghost pre = toks.deep_view();
        toks.push(req.extra_args[j].clone());
        proof {
            assert(toks.deep_view() =~~= pre.push(req.extra_args.deep_view()[j as int]));
            assert(toks.deep_view() =~~= program_tokens(*req) + feed_tokens(*req)
                + req.extra_args.deep_view().take(j + 1));
        }
        j = j + 1;
    }
    proof {
        assert(req.extra_args.deep_view().take(req.extra_args@.len() as int)
            =~= req.extra_args.deep_view());
    }
    if req.listing {
        toks.push(remote);
    } else {
        match req.direction {
            Direction::Pull => {
                toks.push(remote);
                toks.push(String::from_str("./"));
            },
            Direction::Push => {
                toks.push(String::from_str("./"));
                toks.push(remote);
            },
        }
    }
    proof {
        assert(toks.deep_view() =~~= tokens_of(*req));
    }
    toks
}

/// Renders the single shell-escaped command line for a validated request.
/// Synthesis cannot fail: invalid combinations were rejected at construction.
pub fn synthesize(req: &SyncRequest) -> (r: String)
    requires
        req.valid(),
        req.nul_free(),
    ensures
        r@ == synth_spec(*req),
{
    let toks = synthesize_tokens(req);
    let joined = shell_join(&toks);
    match &req.feed {
        Feed::GitTracked => String::from_str("git ls-files | ").concat(joined.as_str()),
        _ => joined,
    }
}

/// Like `synthesize`, but usable on any validated request: it first scans
/// the would-be command words, and a request whose strings hold a nul
/// character is reported with `None` instead of being synthesized.
pub fn synthesize_checked(req: &SyncRequest) -> (r: Option<String>)
    requires
        req.valid(),
    ensures
        req.nul_free() ==> (r matches Some(s) && s@ == synth_spec(*req)),
        !req.nul_free() ==> r is None,
{
    let toks = synthesize_tokens(req);
    let n = toks.len();
    let mut i: usize = 0;
    while i < n
        invariant
            0 <= i <= n,
            n == toks@.len(),
            toks.deep_view() == tokens_of(*req),
            forall|k: int| 0 <= k < i ==> nul_free_seq(#[trigger] toks.deep_view()[k]),
        decreases n - i,
    {
        if !str_nul_free(toks[i].as_str()) {
            proof {
                assert(!nul_free_seq(tokens_of(*req)[i as int]));
            }
            return None;
        }
        i = i + 1;
    }
    let joined = shell_join(&toks);
    let r = match &req.feed {
        Feed::GitTracked => String::from_str("git ls-files | ").concat(joined.as_str()),
        _ => joined,
    };
    Some(r)
}

} // verus!
