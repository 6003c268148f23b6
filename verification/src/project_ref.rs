//! A reference to a project, written `account/project@branch`.

use crate::text::{chars_of, find_char, first_index_from, lemma_first_index_from, text_between};
use vstd::prelude::*;

verus! {

/// Why a text is no project reference.
#[derive(Clone, Copy, Debug, PartialEq, Eq, Structural)]
pub enum ProjectRefError {
    /// There is no `/`, or no `@` after it.
    Malformed,
    /// Nothing stands before the `/`.
    MissingAccount,
    /// Nothing stands between the `/` and the `@`.
    MissingProject,
    /// Nothing stands after the `@`.
    MissingBranch,
}

/// A parsed project reference.
#[derive(Clone, Debug)]
pub struct ProjectRef {
    account: String,
    project: String,
    branch: String,
}

/// How a text splits into a project reference, or why it does not.
pub open spec fn project_ref_parts(s: Seq<char>) -> Result<(Seq<char>, Seq<char>, Seq<char>), ProjectRefError> {
    let slash = first_index_from(s, '/', 0);
    let at = first_index_from(s, '@', slash + 1);
    if slash >= s.len() {
        Err(ProjectRefError::Malformed)
    } else if slash == 0 {
        Err(ProjectRefError::MissingAccount)
    } else if at >= s.len() {
        Err(ProjectRefError::Malformed)
    } else if at == slash + 1 {
        Err(ProjectRefError::MissingProject)
    } else if at + 1 == s.len() {
        Err(ProjectRefError::MissingBranch)
    } else {
        Ok((s.subrange(0, slash), s.subrange(slash + 1, at), s.subrange(at + 1, s.len() as int)))
    }
}

/// The text of a project reference made of three parts.
pub open spec fn project_ref_text(account: Seq<char>, project: Seq<char>, branch: Seq<char>) -> Seq<char> {
    account + seq!['/'] + project + seq!['@'] + branch
}

impl ProjectRefError {
    /// The message shown to the user.
    pub fn message(&self) -> (r: &'static str)
        ensures
            r@ == self.message_text(),
    {
        match self {
            ProjectRefError::Malformed => "Invalid project reference. The project reference argument must follow the format: \"account/project@branch\"",
            ProjectRefError::MissingAccount => "The account name is missing before '/'.",
            ProjectRefError::MissingProject => "The project name is missing.",
            ProjectRefError::MissingBranch => "The branch name is missing after \"@\".",
        }
    }

    pub open spec fn message_text(&self) -> Seq<char> {
        match self {
            ProjectRefError::Malformed => "Invalid project reference. The project reference argument must follow the format: \"account/project@branch\""@,
            ProjectRefError::MissingAccount => "The account name is missing before '/'."@,
            ProjectRefError::MissingProject => "The project name is missing."@,
            ProjectRefError::MissingBranch => "The branch name is missing after \"@\"."@,
        }
    }
}

impl View for ProjectRef {
    type V = (Seq<char>, Seq<char>, Seq<char>);

    closed spec fn view(&self) -> (Seq<char>, Seq<char>, Seq<char>) {
        (self.account@, self.project@, self.branch@)
    }
}

impl ProjectRef {
    /// Reads `account/project@branch`: the account ends at the first `/`, the
    /// project at the first `@` after it, and none of the three may be empty.
    pub fn parse(s: &str) -> (r: Result<ProjectRef, ProjectRefError>)
        ensures
            match r {
                Ok(p) => project_ref_parts(s@) == Ok::<_, ProjectRefError>(p@),
                Err(e) => project_ref_parts(s@) == Err::<(Seq<char>, Seq<char>, Seq<char>), _>(e),
            },
    {
        let chars = chars_of(s);
        let n = chars.len();
        let slash = find_char(&chars, '/', 0);
        if slash >= n {
            return Err(ProjectRefError::Malformed);
        }
        if slash == 0 {
            return Err(ProjectRefError::MissingAccount);
        }
        let at = find_char(&chars, '@', slash + 1);
        if at >= n {
            return Err(ProjectRefError::Malformed);
        }
        if at == slash + 1 {
            return Err(ProjectRefError::MissingProject);
        }
        if at + 1 == n {
            return Err(ProjectRefError::MissingBranch);
        }
        let account = text_between(&chars, 0, slash);
        let project = text_between(&chars, slash + 1, at);
        let branch = text_between(&chars, at + 1, n);
        Ok(ProjectRef { account, project, branch })
    }

    pub fn account(&self) -> (r: &str)
        ensures
            r@ == self@.0,
    {
        self.account.as_str()
    }

    pub fn project(&self) -> (r: &str)
        ensures
            r@ == self@.1,
    {
        self.project.as_str()
    }

    pub fn branch(&self) -> (r: &str)
        ensures
            r@ == self@.2,
    {
        self.branch.as_str()
    }

    /// The reference written out again.
    pub fn to_string(&self) -> (r: String)
        ensures
            r@ == project_ref_text(self@.0, self@.1, self@.2),
    {
        let mut r = self.account.clone();
        r.append("/");
        r.append(self.project.as_str());
        r.append("@");
        r.append(self.branch.as_str());
        proof {
            reveal_strlit("/");
            reveal_strlit("@");
            assert("/"@ =~= seq!['/']);
            assert("@"@ =~= seq!['@']);
        }
        r
    }
}

impl std::str::FromStr for ProjectRef {
    type Err = &'static str;

    /// Reads a reference as `parse` does; a text that is none gives the
    /// message of its error.
    fn from_str(s: &str) -> (r: Result<Self, Self::Err>)
        ensures
            match r {
                Ok(p) => project_ref_parts(s@) == Ok::<_, ProjectRefError>(p@),
                Err(message) => project_ref_parts(s@) is Err && message@ == project_ref_parts(s@)->Err_0.message_text(),
            },
    {
        match ProjectRef::parse(s) {
            Ok(p) => Ok(p),
            Err(e) => Err(e.message()),
        }
    }
}

/// A text that parses is the text of its three parts, and writing a parsed
/// reference out gives the text back.
pub proof fn lemma_project_ref_round_trip(s: Seq<char>)
    requires
        project_ref_parts(s) is Ok,
    ensures
        ({
            let p = project_ref_parts(s)->Ok_0;
            &&& project_ref_text(p.0, p.1, p.2) == s
            &&& p.0.len() > 0 && p.1.len() > 0 && p.2.len() > 0
            &&& !p.0.contains('/')
            &&& !p.1.contains('@')
        }),
{
    let slash = first_index_from(s, '/', 0);
    lemma_first_index_from(s, '/', 0);
    lemma_first_index_from(s, '@', slash + 1);
    let p = project_ref_parts(s)->Ok_0;
    assert(project_ref_text(p.0, p.1, p.2) =~= s);
}

} // verus!
