//! The closed set of Git hook identifiers, with a canonical lowercase,
//! hyphenated name for each, a total renderer, and a parser that fails
//! distinctly on every name outside the set.

use vstd::prelude::*;

verus! {

/// A point in Git's workflow at which Git invokes the script of the same
/// name, if one is present and executable. The set is closed: parsing and
/// rendering are mutual inverses over exactly these variants.
#[derive(Clone, Copy, PartialEq, Eq, Structural, Debug)]
pub enum Hook {
    ApplyPatchMsg,
    PreApplyPatch,
    PostApplyPatch,
    PreCommit,
    PreMergeCommit,
    PrepareCommitMsg,
    CommitMsg,
    PostCommit,
    PreRebase,
    PostCheckout,
    PostMerge,
    PrePush,
    PreReceive,
    Update,
    ProcReceive,
    PostReceive,
    PostUpdate,
    ReferenceTransaction,
    PushToCheckout,
    PreAutoGc,
    PostRewrite,
    SendEmailValidate,
    FsMonitorWatchman,
    FsMonitorWatchmanV2,
    P4Changelist,
    P4PrepareChangelist,
    P4PostChangelist,
    P4PreSubmit,
    PostIndexChange,
}

/// Failure of [`Hook::from`]: the given name is not in the canonical set.
/// Carries the offending input so the caller can report it.
#[derive(Debug)]
pub enum ParseError {
    UnknownHookName { input: String },
}

impl Hook {
    /// The canonical name of this hook, as a sequence of characters.
    pub open spec fn name_spec(self) -> Seq<char> {
        match self {
            Hook::ApplyPatchMsg => "applypatch-msg"@,
            Hook::PreApplyPatch => "pre-applypatch"@,
            Hook::PostApplyPatch => "post-applypatch"@,
            Hook::PreCommit => "pre-commit"@,
            Hook::PreMergeCommit => "pre-merge-commit"@,
            Hook::PrepareCommitMsg => "prepare-commit-msg"@,
            Hook::CommitMsg => "commit-msg"@,
            Hook::PostCommit => "post-commit"@,
            Hook::PreRebase => "pre-rebase"@,
            Hook::PostCheckout => "post-checkout"@,
            Hook::PostMerge => "post-merge"@,
            Hook::PrePush => "pre-push"@,
            Hook::PreReceive => "pre-receive"@,
            Hook::Update => "update"@,
            Hook::ProcReceive => "proc-receive"@,
            Hook::PostReceive => "post-receive"@,
            Hook::PostUpdate => "post-update"@,
            Hook::ReferenceTransaction => "reference-transaction"@,
            Hook::PushToCheckout => "push-to-checkout"@,
            Hook::PreAutoGc => "pre-auto-gc"@,
            Hook::PostRewrite => "post-rewrite"@,
            Hook::SendEmailValidate => "sendemail-validate"@,
            Hook::FsMonitorWatchman => "fsmonitor-watchman"@,
            Hook::FsMonitorWatchmanV2 => "fsmonitor-watchmanv2"@,
            Hook::P4Changelist => "p4-changelist"@,
            Hook::P4PrepareChangelist => "p4-prepare-changelist"@,
            Hook::P4PostChangelist => "p4-post-changelist"@,
            Hook::P4PreSubmit => "p4-pre-submit"@,
            Hook::PostIndexChange => "post-index-change"@,
        }
    }

    /// Renders the canonical name of this hook.
    pub fn name(&self) -> (r: String)
        ensures
            r@ == self.name_spec(),
    {
        match self {
            Hook::ApplyPatchMsg => "applypatch-msg".to_owned(),
            Hook::PreApplyPatch => "pre-applypatch".to_owned(),
            Hook::PostApplyPatch => "post-applypatch".to_owned(),
            Hook::PreCommit => "pre-commit".to_owned(),
            Hook::PreMergeCommit => "pre-merge-commit".to_owned(),
            Hook::PrepareCommitMsg => "prepare-commit-msg".to_owned(),
            Hook::CommitMsg => "commit-msg".to_owned(),
            Hook::PostCommit => "post-commit".to_owned(),
            Hook::PreRebase => "pre-rebase".to_owned(),
            Hook::PostCheckout => "post-checkout".to_owned(),
            Hook::PostMerge => "post-merge".to_owned(),
            Hook::PrePush => "pre-push".to_owned(),
            Hook::PreReceive => "pre-receive".to_owned(),
            Hook::Update => "update".to_owned(),
            Hook::ProcReceive => "proc-receive".to_owned(),
            Hook::PostReceive => "post-receive".to_owned(),
            Hook::PostUpdate => "post-update".to_owned(),
            Hook::ReferenceTransaction => "reference-transaction".to_owned(),
            Hook::PushToCheckout => "push-to-checkout".to_owned(),
            Hook::PreAutoGc => "pre-auto-gc".to_owned(),
            Hook::PostRewrite => "post-rewrite".to_owned(),
            Hook::SendEmailValidate => "sendemail-validate".to_owned(),
            Hook::FsMonitorWatchman => "fsmonitor-watchman".to_owned(),
            Hook::FsMonitorWatchmanV2 => "fsmonitor-watchmanv2".to_owned(),
            Hook::P4Changelist => "p4-changelist".to_owned(),
            Hook::P4PrepareChangelist => "p4-prepare-changelist".to_owned(),
            Hook::P4PostChangelist => "p4-post-changelist".to_owned(),
            Hook::P4PreSubmit => "p4-pre-submit".to_owned(),
            Hook::PostIndexChange => "post-index-change".to_owned(),
        }
    }
}

/// Character-for-character equality of two string slices.
fn str_eq(a: &str, b: &str) -> (r: bool)
    ensures
        r == (a@ == b@),
{
    let n = a.unicode_len();
    if n != b.unicode_len() {
        return false;
    }
    let mut i: usize = 0;
    while i < n
        invariant
            n == a@.len(),
            n == b@.len(),
            0 <= i <= n,
            forall|j: int| 0 <= j < i ==> a@[j] == b@[j],
        decreases n - i,
    {
        if a.get_char(i) != b.get_char(i) {
            return false;
        }
        i = i + 1;
    }
    proof {
        assert(a@ =~= b@);
    }
    true
}

/// What parsing a name yields: the hook whose canonical name it is, or
/// nothing when the name lies outside the set.
pub open spec fn parse_name(s: Seq<char>) -> Option<Hook> {
    if s == Hook::ApplyPatchMsg.name_spec() {
        Some(Hook::ApplyPatchMsg)
    } else if s == Hook::PreApplyPatch.name_spec() {
        Some(Hook::PreApplyPatch)
    } else if s == Hook::PostApplyPatch.name_spec() {
        Some(Hook::PostApplyPatch)
    } else if s == Hook::PreCommit.name_spec() {
        Some(Hook::PreCommit)
    } else if s == Hook::PreMergeCommit.name_spec() {
        Some(Hook::PreMergeCommit)
    } else if s == Hook::PrepareCommitMsg.name_spec() {
        Some(Hook::PrepareCommitMsg)
    } else if s == Hook::CommitMsg.name_spec() {
        Some(Hook::CommitMsg)
    } else if s == Hook::PostCommit.name_spec() {
        Some(Hook::PostCommit)
    } else if s == Hook::PreRebase.name_spec() {
        Some(Hook::PreRebase)
    } else if s == Hook::PostCheckout.name_spec() {
        Some(Hook::PostCheckout)
    } else if s == Hook::PostMerge.name_spec() {
        Some(Hook::PostMerge)
    } else if s == Hook::PrePush.name_spec() {
        Some(Hook::PrePush)
    } else if s == Hook::PreReceive.name_spec() {
        Some(Hook::PreReceive)
    } else if s == Hook::Update.name_spec() {
        Some(Hook::Update)
    } else if s == Hook::ProcReceive.name_spec() {
        Some(Hook::ProcReceive)
    } else if s == Hook::PostReceive.name_spec() {
        Some(Hook::PostReceive)
    } else if s == Hook::PostUpdate.name_spec() {
        Some(Hook::PostUpdate)
    } else if s == Hook::ReferenceTransaction.name_spec() {
        Some(Hook::ReferenceTransaction)
    } else if s == Hook::PushToCheckout.name_spec() {
        Some(Hook::PushToCheckout)
    } else if s == Hook::PreAutoGc.name_spec() {
        Some(Hook::PreAutoGc)
    } else if s == Hook::PostRewrite.name_spec() {
        Some(Hook::PostRewrite)
    } else if s == Hook::SendEmailValidate.name_spec() {
        Some(Hook::SendEmailValidate)
    } else if s == Hook::FsMonitorWatchman.name_spec() {
        Some(Hook::FsMonitorWatchman)
    } else if s == Hook::FsMonitorWatchmanV2.name_spec() {
        Some(Hook::FsMonitorWatchmanV2)
    } else if s == Hook::P4Changelist.name_spec() {
        Some(Hook::P4Changelist)
    } else if s == Hook::P4PrepareChangelist.name_spec() {
        Some(Hook::P4PrepareChangelist)
    } else if s == Hook::P4PostChangelist.name_spec() {
        Some(Hook::P4PostChangelist)
    } else if s == Hook::P4PreSubmit.name_spec() {
        Some(Hook::P4PreSubmit)
    } else if s == Hook::PostIndexChange.name_spec() {
        Some(Hook::PostIndexChange)
    } else {
        None
    }
}

impl Hook {
    /// Parses a canonical hook name. Succeeds exactly on the names of the
    /// closed set; on any other input it fails with the input preserved.
    pub fn from(name: &str) -> (r: Result<Hook, ParseError>)
        ensures
            match r {
                Ok(h) => parse_name(name@) == Some(h),
                Err(e) => {
                    &&& parse_name(name@) is None
                    &&& e matches ParseError::UnknownHookName { input } && input@ == name@
                },
            },
    {
        if str_eq(name, "applypatch-msg") {
            Ok(Hook::ApplyPatchMsg)
        } else if str_eq(name, "pre-applypatch") {
            Ok(Hook::PreApplyPatch)
        } else if str_eq(name, "post-applypatch") {
            Ok(Hook::PostApplyPatch)
        } else if str_eq(name, "pre-commit") {
            Ok(Hook::PreCommit)
        } else if str_eq(name, "pre-merge-commit") {
            Ok(Hook::PreMergeCommit)
        } else if str_eq(name, "prepare-commit-msg") {
            Ok(Hook::PrepareCommitMsg)
        } else if str_eq(name, "commit-msg") {
            Ok(Hook::CommitMsg)
        } else if str_eq(name, "post-commit") {
            Ok(Hook::PostCommit)
        } else if str_eq(name, "pre-rebase") {
            Ok(Hook::PreRebase)
        } else if str_eq(name, "post-checkout") {
            Ok(Hook::PostCheckout)
        } else if str_eq(name, "post-merge") {
            Ok(Hook::PostMerge)
        } else if str_eq(name, "pre-push") {
            Ok(Hook::PrePush)
        } else if str_eq(name, "pre-receive") {
            Ok(Hook::PreReceive)
        } else if str_eq(name, "update") {
            Ok(Hook::Update)
        } else if str_eq(name, "proc-receive") {
            Ok(Hook::ProcReceive)
        } else if str_eq(name, "post-receive") {
            Ok(Hook::PostReceive)
        } else if str_eq(name, "post-update") {
            Ok(Hook::PostUpdate)
        } else if str_eq(name, "reference-transaction") {
            Ok(Hook::ReferenceTransaction)
        } else if str_eq(name, "push-to-checkout") {
            Ok(Hook::PushToCheckout)
        } else if str_eq(name, "pre-auto-gc") {
            Ok(Hook::PreAutoGc)
        } else if str_eq(name, "post-rewrite") {
            Ok(Hook::PostRewrite)
        } else if str_eq(name, "sendemail-validate") {
            Ok(Hook::SendEmailValidate)
        } else if str_eq(name, "fsmonitor-watchman") {
            Ok(Hook::FsMonitorWatchman)
        } else if str_eq(name, "fsmonitor-watchmanv2") {
            Ok(Hook::FsMonitorWatchmanV2)
        } else if str_eq(name, "p4-changelist") {
            Ok(Hook::P4Changelist)
        } else if str_eq(name, "p4-prepare-changelist") {
            Ok(Hook::P4PrepareChangelist)
        } else if str_eq(name, "p4-post-changelist") {
            Ok(Hook::P4PostChangelist)
        } else if str_eq(name, "p4-pre-submit") {
            Ok(Hook::P4PreSubmit)
        } else if str_eq(name, "post-index-change") {
            Ok(Hook::PostIndexChange)
        } else {
            Err(ParseError::UnknownHookName { input: name.to_owned() })
        }
    }

    /// Every hook, in the fixed order used to populate selection menus.
    pub open spec fn all_spec() -> Seq<Hook> {
        seq![
            Hook::ApplyPatchMsg,
            Hook::PreApplyPatch,
            Hook::PostApplyPatch,
            Hook::PreCommit,
            Hook::PreMergeCommit,
            Hook::PrepareCommitMsg,
            Hook::CommitMsg,
            Hook::PostCommit,
            Hook::PreRebase,
            Hook::PostCheckout,
            Hook::PostMerge,
            Hook::PrePush,
            Hook::PreReceive,
            Hook::Update,
            Hook::ProcReceive,
            Hook::PostReceive,
            Hook::PostUpdate,
            Hook::ReferenceTransaction,
            Hook::PushToCheckout,
            Hook::PreAutoGc,
            Hook::PostRewrite,
            Hook::SendEmailValidate,
            Hook::FsMonitorWatchman,
            Hook::FsMonitorWatchmanV2,
            Hook::P4Changelist,
            Hook::P4PrepareChangelist,
            Hook::P4PostChangelist,
            Hook::P4PreSubmit,
            Hook::PostIndexChange,
        ]
    }

    /// Yields every hook variant, in the fixed, stable order of
    /// [`Hook::all_spec`].
    pub fn all() -> (r: Vec<Hook>)
        ensures
            r@ == Hook::all_spec(),
    {
        let mut v: Vec<Hook> = Vec::new();
        v.push(Hook::ApplyPatchMsg);
        v.push(Hook::PreApplyPatch);
        v.push(Hook::PostApplyPatch);
        v.push(Hook::PreCommit);
        v.push(Hook::PreMergeCommit);
        v.push(Hook::PrepareCommitMsg);
        v.push(Hook::CommitMsg);
        v.push(Hook::PostCommit);
        v.push(Hook::PreRebase);
        v.push(Hook::PostCheckout);
        v.push(Hook::PostMerge);
        v.push(Hook::PrePush);
        v.push(Hook::PreReceive);
        v.push(Hook::Update);
        v.push(Hook::ProcReceive);
        v.push(Hook::PostReceive);
        v.push(Hook::PostUpdate);
        v.push(Hook::ReferenceTransaction);
        v.push(Hook::PushToCheckout);
        v.push(Hook::PreAutoGc);
        v.push(Hook::PostRewrite);
        v.push(Hook::SendEmailValidate);
        v.push(Hook::FsMonitorWatchman);
        v.push(Hook::FsMonitorWatchmanV2);
        v.push(Hook::P4Changelist);
        v.push(Hook::P4PrepareChangelist);
        v.push(Hook::P4PostChangelist);
        v.push(Hook::P4PreSubmit);
        v.push(Hook::PostIndexChange);
        proof {
            assert(v@ =~= Hook::all_spec());
        }
        v
    }

    /// The reduced subset of common, client-side hooks, in menu order.
    pub open spec fn simple_spec() -> Seq<Hook> {
        seq![
            Hook::PreCommit,
            Hook::PrepareCommitMsg,
            Hook::CommitMsg,
            Hook::PostCommit,
            Hook::PreRebase,
            Hook::PostCheckout,
            Hook::PostMerge,
            Hook::PrePush,
        ]
    }

    /// Yields the common subset of hooks offered when no extended flag is
    /// given, in the fixed order of [`Hook::simple_spec`].
    pub fn simple() -> (r: Vec<Hook>)
        ensures
            r@ == Hook::simple_spec(),
    {
        let mut v: Vec<Hook> = Vec::new();
        v.push(Hook::PreCommit);
        v.push(Hook::PrepareCommitMsg);
        v.push(Hook::CommitMsg);
        v.push(Hook::PostCommit);
        v.push(Hook::PreRebase);
        v.push(Hook::PostCheckout);
        v.push(Hook::PostMerge);
        v.push(Hook::PrePush);
        proof {
            assert(v@ =~= Hook::simple_spec());
        }
        v
    }
}

/// Rendering then parsing gives the hook back: the canonical names are
/// pairwise distinct, so each one parses to its own variant.
#[verifier::spinoff_prover]
pub proof fn lemma_parse_of_name(h: Hook)
    ensures
        parse_name(h.name_spec()) == Some(h),
{
    broadcast use vstd::string::group_string_axioms;

    reveal_strlit("applypatch-msg");
    reveal_strlit("pre-applypatch");
    reveal_strlit("post-applypatch");
    reveal_strlit("pre-commit");
    reveal_strlit("pre-merge-commit");
    reveal_strlit("prepare-commit-msg");
    reveal_strlit("commit-msg");
    reveal_strlit("post-commit");
    reveal_strlit("pre-rebase");
    reveal_strlit("post-checkout");
    reveal_strlit("post-merge");
    reveal_strlit("pre-push");
    reveal_strlit("pre-receive");
    reveal_strlit("update");
    reveal_strlit("proc-receive");
    reveal_strlit("post-receive");
    reveal_strlit("post-update");
    reveal_strlit("reference-transaction");
    reveal_strlit("push-to-checkout");
    reveal_strlit("pre-auto-gc");
    reveal_strlit("post-rewrite");
    reveal_strlit("sendemail-validate");
    reveal_strlit("fsmonitor-watchman");
    reveal_strlit("fsmonitor-watchmanv2");
    reveal_strlit("p4-changelist");
    reveal_strlit("p4-prepare-changelist");
    reveal_strlit("p4-post-changelist");
    reveal_strlit("p4-pre-submit");
    reveal_strlit("post-index-change");
    assert("applypatch-msg"@.len() == 14);
    assert("pre-applypatch"@.len() == 14);
    assert("post-applypatch"@.len() == 15);
    assert("pre-commit"@.len() == 10);
    assert("pre-merge-commit"@.len() == 16);
    assert("prepare-commit-msg"@.len() == 18);
    assert("commit-msg"@.len() == 10);
    assert("post-commit"@.len() == 11);
    assert("pre-rebase"@.len() == 10);
    assert("post-checkout"@.len() == 13);
    assert("post-merge"@.len() == 10);
    assert("pre-push"@.len() == 8);
    assert("pre-receive"@.len() == 11);
    assert("update"@.len() == 6);
    assert("proc-receive"@.len() == 12);
    assert("post-receive"@.len() == 12);
    assert("post-update"@.len() == 11);
    assert("reference-transaction"@.len() == 21);
    assert("push-to-checkout"@.len() == 16);
    assert("pre-auto-gc"@.len() == 11);
    assert("post-rewrite"@.len() == 12);
    assert("sendemail-validate"@.len() == 18);
    assert("fsmonitor-watchman"@.len() == 18);
    assert("fsmonitor-watchmanv2"@.len() == 20);
    assert("p4-changelist"@.len() == 13);
    assert("p4-prepare-changelist"@.len() == 21);
    assert("p4-post-changelist"@.len() == 18);
    assert("p4-pre-submit"@.len() == 13);
    assert("post-index-change"@.len() == 17);
    // Names of equal length are told apart by a differing character.
    assert("applypatch-msg"@ != "pre-applypatch"@) by {
        assert("applypatch-msg"@[0] == 'a' && "pre-applypatch"@[0] == 'p');
    }
    assert("pre-commit"@ != "commit-msg"@) by {
        assert("pre-commit"@[0] == 'p' && "commit-msg"@[0] == 'c');
    }
    assert("pre-commit"@ != "pre-rebase"@) by {
        assert("pre-commit"@[4] == 'c' && "pre-rebase"@[4] == 'r');
    }
    assert("pre-commit"@ != "post-merge"@) by {
        assert("pre-commit"@[1] == 'r' && "post-merge"@[1] == 'o');
    }
    assert("commit-msg"@ != "pre-rebase"@) by {
        assert("commit-msg"@[0] == 'c' && "pre-rebase"@[0] == 'p');
    }
    assert("commit-msg"@ != "post-merge"@) by {
        assert("commit-msg"@[0] == 'c' && "post-merge"@[0] == 'p');
    }
    assert("pre-rebase"@ != "post-merge"@) by {
        assert("pre-rebase"@[1] == 'r' && "post-merge"@[1] == 'o');
    }
    assert("post-commit"@ != "pre-receive"@) by {
        assert("post-commit"@[1] == 'o' && "pre-receive"@[1] == 'r');
    }
    assert("post-commit"@ != "post-update"@) by {
        assert("post-commit"@[5] == 'c' && "post-update"@[5] == 'u');
    }
    assert("post-commit"@ != "pre-auto-gc"@) by {
        assert("post-commit"@[1] == 'o' && "pre-auto-gc"@[1] == 'r');
    }
    assert("pre-receive"@ != "post-update"@) by {
        assert("pre-receive"@[1] == 'r' && "post-update"@[1] == 'o');
    }
    assert("pre-receive"@ != "pre-auto-gc"@) by {
        assert("pre-receive"@[4] == 'r' && "pre-auto-gc"@[4] == 'a');
    }
    assert("post-update"@ != "pre-auto-gc"@) by {
        assert("post-update"@[1] == 'o' && "pre-auto-gc"@[1] == 'r');
    }
    assert("proc-receive"@ != "post-receive"@) by {
        assert("proc-receive"@[1] == 'r' && "post-receive"@[1] == 'o');
    }
    assert("proc-receive"@ != "post-rewrite"@) by {
        assert("proc-receive"@[1] == 'r' && "post-rewrite"@[1] == 'o');
    }
    assert("post-receive"@ != "post-rewrite"@) by {
        assert("post-receive"@[7] == 'c' && "post-rewrite"@[7] == 'w');
    }
    assert("pre-merge-commit"@ != "push-to-checkout"@) by {
        assert("pre-merge-commit"@[1] == 'r' && "push-to-checkout"@[1] == 'u');
    }
    assert("prepare-commit-msg"@ != "sendemail-validate"@) by {
        assert("prepare-commit-msg"@[0] == 'p' && "sendemail-validate"@[0] == 's');
    }
    assert("prepare-commit-msg"@ != "fsmonitor-watchman"@) by {
        assert("prepare-commit-msg"@[0] == 'p' && "fsmonitor-watchman"@[0] == 'f');
    }
    assert("prepare-commit-msg"@ != "p4-post-changelist"@) by {
        assert("prepare-commit-msg"@[1] == 'r' && "p4-post-changelist"@[1] == '4');
    }
    assert("sendemail-validate"@ != "fsmonitor-watchman"@) by {
        assert("sendemail-validate"@[0] == 's' && "fsmonitor-watchman"@[0] == 'f');
    }
    assert("sendemail-validate"@ != "p4-post-changelist"@) by {
        assert("sendemail-validate"@[0] == 's' && "p4-post-changelist"@[0] == 'p');
    }
    assert("fsmonitor-watchman"@ != "p4-post-changelist"@) by {
        assert("fsmonitor-watchman"@[0] == 'f' && "p4-post-changelist"@[0] == 'p');
    }
    assert("post-checkout"@ != "p4-changelist"@) by {
        assert("post-checkout"@[1] == 'o' && "p4-changelist"@[1] == '4');
    }
    assert("post-checkout"@ != "p4-pre-submit"@) by {
        assert("post-checkout"@[1] == 'o' && "p4-pre-submit"@[1] == '4');
    }
    assert("p4-changelist"@ != "p4-pre-submit"@) by {
        assert("p4-changelist"@[3] == 'c' && "p4-pre-submit"@[3] == 'p');
    }
    assert("reference-transaction"@ != "p4-prepare-changelist"@) by {
        assert("reference-transaction"@[0] == 'r' && "p4-prepare-changelist"@[0] == 'p');
    }
}

/// Parsing fails exactly on the strings outside the canonical name set.
pub proof fn lemma_parse_unknown(s: Seq<char>)
    ensures
        (parse_name(s) is None) <==> (forall|h: Hook| s != h.name_spec()),
{
}

} // verus!
