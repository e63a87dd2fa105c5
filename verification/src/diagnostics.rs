//! Turning raw CLI output into a cause and a fix.
//!
//! Failures arrive as whatever clio, git and gh printed. A fixed, ordered table
//! of failure signatures turns the ones DevHub knows into a summary, a cause
//! and the steps that resolve them; anything unmatched yields `None`, so the
//! caller keeps showing the raw output.
use vstd::prelude::*;
use crate::text::{
    chars_of, concat3, contains, contains_sub, join, owned, spec_join, spec_to_lowercase,
    to_lowercase, views,
};

verus! {

/// A recognised failure: what went wrong, why, and the ordered steps to fix it.
#[derive(Clone, Debug, PartialEq)]
pub struct Diagnosis {
    /// Stable identifier of the rule that matched.
    pub code: String,
    /// One line: what went wrong, in the user's terms.
    pub summary: String,
    /// Why it happens.
    pub cause: String,
    /// Ordered, concrete things to do.
    pub steps: Vec<String>,
}

/// The text of a diagnosis.
pub struct DiagnosisView {
    pub code: Seq<char>,
    pub summary: Seq<char>,
    pub cause: Seq<char>,
    pub steps: Seq<Seq<char>>,
}

impl View for Diagnosis {
    type V = DiagnosisView;

    open spec fn view(&self) -> DiagnosisView {
        DiagnosisView {
            code: self.code@,
            summary: self.summary@,
            cause: self.cause@,
            steps: views(self.steps@),
        }
    }
}

/// The text of an optional diagnosis.
pub open spec fn opt_diagnosis_view(d: Option<Diagnosis>) -> Option<DiagnosisView> {
    match d {
        Some(x) => Some(x@),
        None => None,
    }
}

/// One failure signature. Every `all` needle must occur, at least one `any`
/// needle must occur when `any` is not empty, and no `none` needle may occur.
#[derive(Clone, Debug)]
pub struct Rule {
    pub code: String,
    pub all: Vec<String>,
    pub any: Vec<String>,
    pub none: Vec<String>,
    pub summary: String,
    pub cause: String,
    pub steps: Vec<String>,
}

/// The text of a rule.
pub struct RuleView {
    pub code: Seq<char>,
    pub all: Seq<Seq<char>>,
    pub any: Seq<Seq<char>>,
    pub none: Seq<Seq<char>>,
    pub summary: Seq<char>,
    pub cause: Seq<char>,
    pub steps: Seq<Seq<char>>,
}

impl View for Rule {
    type V = RuleView;

    open spec fn view(&self) -> RuleView {
        RuleView {
            code: self.code@,
            all: views(self.all@),
            any: views(self.any@),
            none: views(self.none@),
            summary: self.summary@,
            cause: self.cause@,
            steps: views(self.steps@),
        }
    }
}

/// How many rules the table holds.
pub const RULE_COUNT: usize = 12;

/// The rule table, ordered most specific first; the first match wins.
pub open spec fn spec_rule(i: int) -> RuleView {
    if i == 0 {
        RuleView {
            code: "clio-damaged"@,
            all: seq!["could not load file or assembly"@],
            any: Seq::<Seq<char>>::empty(),
            none: Seq::<Seq<char>>::empty(),
            summary: "clio's installation is incomplete."@,
            cause: "A required assembly is missing from the installed clio tool, usually after an interrupted or partial update."@,
            steps: seq!["Use \"Repair clio\" in the DevHub header banner."@, "If that fails, run: dotnet tool uninstall clio -g"@, "Then run: dotnet tool install clio -g"@],
        }
    } else if i == 1 {
        RuleView {
            code: "clio-locked"@,
            all: Seq::<Seq<char>>::empty(),
            any: seq!["failed to uninstall tool package"@, "being used by another process"@, "access to the path"@],
            none: Seq::<Seq<char>>::empty(),
            summary: "clio's files are locked by another process."@,
            cause: "A clio command is still running somewhere — another DevHub job, or a terminal you left open — so its files cannot be replaced."@,
            steps: seq!["Wait for running jobs to finish in the Jobs screen."@, "Close any terminal or editor that is running clio."@, "Retry the operation."@, "If it still fails, restart DevHub as administrator."@],
        }
    } else if i == 2 {
        RuleView {
            code: "sql-column-missing"@,
            all: seq!["column"@, "does not exist"@, "42703"@],
            any: Seq::<Seq<char>>::empty(),
            none: Seq::<Seq<char>>::empty(),
            summary: "The query refers to a column this environment does not have."@,
            cause: "The database rejected the SQL with error 42703: a column named in the query does not exist in this environment's table, often a custom column that was never installed here."@,
            steps: seq!["Find the column named in the error above and check it against the table in this environment."@, "If the column comes from a package that is not installed here, install that package or leave the column out."@, "Retry the operation."@],
        }
    } else if i == 3 {
        RuleView {
            code: "cliogate-missing"@,
            all: seq!["cliogate"@],
            any: seq!["install"@, "not found"@, "is not installed"@, "version"@],
            none: Seq::<Seq<char>>::empty(),
            summary: "This environment needs the cliogate helper package."@,
            cause: "Workspace synchronization and several package operations run through cliogate, which is installed per Creatio environment and is either missing or too old here."@,
            steps: seq!["Open the Environments screen and install cliogate for this environment."@, "If it is already installed, update it — the server copy may predate your clio version."@, "Retry the operation."@],
        }
    } else if i == 4 {
        RuleView {
            code: "tool-missing"@,
            all: Seq::<Seq<char>>::empty(),
            any: seq!["is not recognized"@, "no such file or directory"@, "could not find clio"@, "could not find gh"@, "could not find git"@, "could not find dotnet"@, "the system cannot find the file specified"@],
            none: seq!["could not load file or assembly"@],
            summary: "A required command-line tool could not be started."@,
            cause: "DevHub inherits the PATH captured when you signed in to Windows, so a tool installed since then can be invisible to the app even though it works in a terminal."@,
            steps: seq!["Open Settings and use Re-scan under Command-line tools."@, "If the tool is still not found, use Locate… to point DevHub at its executable."@, "If it is genuinely missing, install it: clio via `dotnet tool install clio -g`, GitHub CLI via `winget install GitHub.cli`."@],
        }
    } else if i == 5 {
        RuleView {
            code: "git-push-rejected"@,
            all: Seq::<Seq<char>>::empty(),
            any: seq!["non-fast-forward"@, "updates were rejected"@, "fetch first"@],
            none: Seq::<Seq<char>>::empty(),
            summary: "The push was rejected because the remote has commits you do not have."@,
            cause: "Someone else pushed to this branch after your last pull, so your history is behind the remote. Overwriting it would drop their work."@,
            steps: seq!["Pull the remote changes into the workspace first."@, "Resolve any conflicts locally."@, "Push again once your branch includes the remote commits."@],
        }
    } else if i == 6 {
        RuleView {
            code: "git-repo-access"@,
            all: seq!["repository not found"@],
            any: Seq::<Seq<char>>::empty(),
            none: Seq::<Seq<char>>::empty(),
            summary: "GitHub cannot see that repository under the signed-in account."@,
            cause: "GitHub returns \"not found\" rather than \"forbidden\" for private repositories you lack access to, so this is usually the wrong account rather than a missing repository."@,
            steps: seq!["Check which account is active under Settings → GitHub and Git identity."@, "Switch to an account that can access the repository, or have its owner add you as a collaborator."@, "Accept the collaborator invitation, then retry."@],
        }
    } else if i == 7 {
        RuleView {
            code: "git-auth"@,
            all: Seq::<Seq<char>>::empty(),
            any: seq!["could not read username"@, "terminal prompts disabled"@, "authentication failed for"@],
            none: Seq::<Seq<char>>::empty(),
            summary: "Git could not authenticate to the remote."@,
            cause: "DevHub disables interactive Git prompts so jobs cannot hang, so a missing or expired credential fails immediately instead of asking."@,
            steps: seq!["Sign in again under Settings → GitHub and Git identity."@, "Confirm the remote URL uses HTTPS rather than SSH."@, "Retry the push or pull."@],
        }
    } else if i == 8 {
        RuleView {
            code: "creatio-auth"@,
            all: Seq::<Seq<char>>::empty(),
            any: seq!["unauthorized"@, "invalid username or password"@, "the user name or password is incorrect"@, "401"@],
            none: seq!["repository not found"@, "github.com"@],
            summary: "Creatio rejected the environment's credentials."@,
            cause: "The stored user name or password for this environment is wrong or expired, or the account is locked in Creatio."@,
            steps: seq!["Open the Environments screen and re-enter the credentials for this environment."@, "Confirm the account can sign in to Creatio directly in a browser."@, "Check that the account is not locked or password-expired in Creatio."@],
        }
    } else if i == 9 {
        RuleView {
            code: "sql-fk-violation"@,
            all: Seq::<Seq<char>>::empty(),
            any: seq!["23503"@, "violates foreign key constraint"@],
            none: Seq::<Seq<char>>::empty(),
            summary: "A record refers to another record the target environment does not have."@,
            cause: "The database rejected the write with error 23503: a foreign key points at a row that does not exist in this environment, such as an owner or a parent record that was not migrated."@,
            steps: seq!["Find the referenced table and id in the error above."@, "Migrate or create the referenced record in the target environment first, or clear the reference."@, "Retry the operation."@],
        }
    } else if i == 10 {
        RuleView {
            code: "creatio-unreachable"@,
            all: Seq::<Seq<char>>::empty(),
            any: seq!["no such host"@, "connection refused"@, "actively refused"@, "timed out"@, "unable to connect"@, "name or service not known"@, "(503)"@, "http 503"@, "503 service unavailable"@, "(502)"@, "http 502"@, "502 bad gateway"@],
            none: seq!["23503"@, "23502"@, "foreign key constraint"@],
            summary: "The Creatio environment could not be reached."@,
            cause: "The URL, the site, or the network path to it is unavailable — a stopped local IIS site and a VPN that is not connected both look like this."@,
            steps: seq!["Open the environment URL in a browser to confirm it responds."@, "For a local environment, check the site is started in IIS."@, "For a remote environment, confirm any required VPN is connected."@, "Verify the URL under the Environments screen."@],
        }
    } else {
        RuleView {
            code: "creatio-forbidden"@,
            all: Seq::<Seq<char>>::empty(),
            any: seq!["forbidden"@, "403"@],
            none: seq!["repository not found"@, "github.com"@],
            summary: "Creatio accepted the sign-in but refused the operation."@,
            cause: "The environment account authenticated correctly but lacks the rights the operation needs — package management and SQL execution both require elevated access."@,
            steps: seq!["Use an environment account with system-administrator rights."@, "Confirm the operation is permitted in this environment — some hosted environments block direct SQL."@],
        }
    }
}

/// Append `s` to a list of strings.
fn push_str(v: &mut Vec<String>, s: &str)
    ensures
        views(final(v)@) == views(old(v)@).push(s@),
{
    let ghost before = v@;
    v.push(owned(s));
    assert(views(v@) =~= views(before).push(s@));
}

/// Rule `i` of the table.
pub fn rule(i: usize) -> (r: Rule)
    requires
        i < RULE_COUNT,
    ensures
        r@ == spec_rule(i as int),
{
    let mut all: Vec<String> = Vec::new();
    let mut any: Vec<String> = Vec::new();
    let mut none: Vec<String> = Vec::new();
    let mut steps: Vec<String> = Vec::new();
    if i == 0 {
        push_str(&mut all, "could not load file or assembly");
        push_str(&mut steps, "Use \"Repair clio\" in the DevHub header banner.");
        push_str(&mut steps, "If that fails, run: dotnet tool uninstall clio -g");
        push_str(&mut steps, "Then run: dotnet tool install clio -g");
        let r = Rule {
            code: owned("clio-damaged"),
            all,
            any,
            none,
            summary: owned("clio's installation is incomplete."),
            cause: owned("A required assembly is missing from the installed clio tool, usually after an interrupted or partial update."),
            steps,
        };
        proof {
            assert(views(r.all@) =~= seq!["could not load file or assembly"@]);
            assert(views(r.any@) =~= Seq::<Seq<char>>::empty());
            assert(views(r.none@) =~= Seq::<Seq<char>>::empty());
            assert(views(r.steps@) =~= seq!["Use \"Repair clio\" in the DevHub header banner."@, "If that fails, run: dotnet tool uninstall clio -g"@, "Then run: dotnet tool install clio -g"@]);
        }
        r
    } else if i == 1 {
        push_str(&mut any, "failed to uninstall tool package");
        push_str(&mut any, "being used by another process");
        push_str(&mut any, "access to the path");
        push_str(&mut steps, "Wait for running jobs to finish in the Jobs screen.");
        push_str(&mut steps, "Close any terminal or editor that is running clio.");
        push_str(&mut steps, "Retry the operation.");
        push_str(&mut steps, "If it still fails, restart DevHub as administrator.");
        let r = Rule {
            code: owned("clio-locked"),
            all,
            any,
            none,
            summary: owned("clio's files are locked by another process."),
            cause: owned("A clio command is still running somewhere — another DevHub job, or a terminal you left open — so its files cannot be replaced."),
            steps,
        };
        proof {
            assert(views(r.all@) =~= Seq::<Seq<char>>::empty());
            assert(views(r.any@) =~= seq!["failed to uninstall tool package"@, "being used by another process"@, "access to the path"@]);
            assert(views(r.none@) =~= Seq::<Seq<char>>::empty());
            assert(views(r.steps@) =~= seq!["Wait for running jobs to finish in the Jobs screen."@, "Close any terminal or editor that is running clio."@, "Retry the operation."@, "If it still fails, restart DevHub as administrator."@]);
        }
        r
    } else if i == 2 {
        push_str(&mut all, "column");
        push_str(&mut all, "does not exist");
        push_str(&mut all, "42703");
        push_str(&mut steps, "Find the column named in the error above and check it against the table in this environment.");
        push_str(&mut steps, "If the column comes from a package that is not installed here, install that package or leave the column out.");
        push_str(&mut steps, "Retry the operation.");
        let r = Rule {
            code: owned("sql-column-missing"),
            all,
            any,
            none,
            summary: owned("The query refers to a column this environment does not have."),
            cause: owned("The database rejected the SQL with error 42703: a column named in the query does not exist in this environment's table, often a custom column that was never installed here."),
            steps,
        };
        proof {
            assert(views(r.all@) =~= seq!["column"@, "does not exist"@, "42703"@]);
            assert(views(r.any@) =~= Seq::<Seq<char>>::empty());
            assert(views(r.none@) =~= Seq::<Seq<char>>::empty());
            assert(views(r.steps@) =~= seq!["Find the column named in the error above and check it against the table in this environment."@, "If the column comes from a package that is not installed here, install that package or leave the column out."@, "Retry the operation."@]);
        }
        r
    } else if i == 3 {
        push_str(&mut all, "cliogate");
        push_str(&mut any, "install");
        push_str(&mut any, "not found");
        push_str(&mut any, "is not installed");
        push_str(&mut any, "version");
        push_str(&mut steps, "Open the Environments screen and install cliogate for this environment.");
        push_str(&mut steps, "If it is already installed, update it — the server copy may predate your clio version.");
        push_str(&mut steps, "Retry the operation.");
        let r = Rule {
            code: owned("cliogate-missing"),
            all,
            any,
            none,
            summary: owned("This environment needs the cliogate helper package."),
            cause: owned("Workspace synchronization and several package operations run through cliogate, which is installed per Creatio environment and is either missing or too old here."),
            steps,
        };
        proof {
            assert(views(r.all@) =~= seq!["cliogate"@]);
            assert(views(r.any@) =~= seq!["install"@, "not found"@, "is not installed"@, "version"@]);
            assert(views(r.none@) =~= Seq::<Seq<char>>::empty());
            assert(views(r.steps@) =~= seq!["Open the Environments screen and install cliogate for this environment."@, "If it is already installed, update it — the server copy may predate your clio version."@, "Retry the operation."@]);
        }
        r
    } else if i == 4 {
        push_str(&mut any, "is not recognized");
        push_str(&mut any, "no such file or directory");
        push_str(&mut any, "could not find clio");
        push_str(&mut any, "could not find gh");
        push_str(&mut any, "could not find git");
        push_str(&mut any, "could not find dotnet");
        push_str(&mut any, "the system cannot find the file specified");
        push_str(&mut none, "could not load file or assembly");
        push_str(&mut steps, "Open Settings and use Re-scan under Command-line tools.");
        push_str(&mut steps, "If the tool is still not found, use Locate… to point DevHub at its executable.");
        push_str(&mut steps, "If it is genuinely missing, install it: clio via `dotnet tool install clio -g`, GitHub CLI via `winget install GitHub.cli`.");
        let r = Rule {
            code: owned("tool-missing"),
            all,
            any,
            none,
            summary: owned("A required command-line tool could not be started."),
            cause: owned("DevHub inherits the PATH captured when you signed in to Windows, so a tool installed since then can be invisible to the app even though it works in a terminal."),
            steps,
        };
        proof {
            assert(views(r.all@) =~= Seq::<Seq<char>>::empty());
            assert(views(r.any@) =~= seq!["is not recognized"@, "no such file or directory"@, "could not find clio"@, "could not find gh"@, "could not find git"@, "could not find dotnet"@, "the system cannot find the file specified"@]);
            assert(views(r.none@) =~= seq!["could not load file or assembly"@]);
            assert(views(r.steps@) =~= seq!["Open Settings and use Re-scan under Command-line tools."@, "If the tool is still not found, use Locate… to point DevHub at its executable."@, "If it is genuinely missing, install it: clio via `dotnet tool install clio -g`, GitHub CLI via `winget install GitHub.cli`."@]);
        }
        r
    } else if i == 5 {
        push_str(&mut any, "non-fast-forward");
        push_str(&mut any, "updates were rejected");
        push_str(&mut any, "fetch first");
        push_str(&mut steps, "Pull the remote changes into the workspace first.");
        push_str(&mut steps, "Resolve any conflicts locally.");
        push_str(&mut steps, "Push again once your branch includes the remote commits.");
        let r = Rule {
            code: owned("git-push-rejected"),
            all,
            any,
            none,
            summary: owned("The push was rejected because the remote has commits you do not have."),
            cause: owned("Someone else pushed to this branch after your last pull, so your history is behind the remote. Overwriting it would drop their work."),
            steps,
        };
        proof {
            assert(views(r.all@) =~= Seq::<Seq<char>>::empty());
            assert(views(r.any@) =~= seq!["non-fast-forward"@, "updates were rejected"@, "fetch first"@]);
            assert(views(r.none@) =~= Seq::<Seq<char>>::empty());
            assert(views(r.steps@) =~= seq!["Pull the remote changes into the workspace first."@, "Resolve any conflicts locally."@, "Push again once your branch includes the remote commits."@]);
        }
        r
    } else if i == 6 {
        push_str(&mut all, "repository not found");
        push_str(&mut steps, "Check which account is active under Settings → GitHub and Git identity.");
        push_str(&mut steps, "Switch to an account that can access the repository, or have its owner add you as a collaborator.");
        push_str(&mut steps, "Accept the collaborator invitation, then retry.");
        let r = Rule {
            code: owned("git-repo-access"),
            all,
            any,
            none,
            summary: owned("GitHub cannot see that repository under the signed-in account."),
            cause: owned("GitHub returns \"not found\" rather than \"forbidden\" for private repositories you lack access to, so this is usually the wrong account rather than a missing repository."),
            steps,
        };
        proof {
            assert(views(r.all@) =~= seq!["repository not found"@]);
            assert(views(r.any@) =~= Seq::<Seq<char>>::empty());
            assert(views(r.none@) =~= Seq::<Seq<char>>::empty());
            assert(views(r.steps@) =~= seq!["Check which account is active under Settings → GitHub and Git identity."@, "Switch to an account that can access the repository, or have its owner add you as a collaborator."@, "Accept the collaborator invitation, then retry."@]);
        }
        r
    } else if i == 7 {
        push_str(&mut any, "could not read username");
        push_str(&mut any, "terminal prompts disabled");
        push_str(&mut any, "authentication failed for");
        push_str(&mut steps, "Sign in again under Settings → GitHub and Git identity.");
        push_str(&mut steps, "Confirm the remote URL uses HTTPS rather than SSH.");
        push_str(&mut steps, "Retry the push or pull.");
        let r = Rule {
            code: owned("git-auth"),
            all,
            any,
            none,
            summary: owned("Git could not authenticate to the remote."),
            cause: owned("DevHub disables interactive Git prompts so jobs cannot hang, so a missing or expired credential fails immediately instead of asking."),
            steps,
        };
        proof {
            assert(views(r.all@) =~= Seq::<Seq<char>>::empty());
            assert(views(r.any@) =~= seq!["could not read username"@, "terminal prompts disabled"@, "authentication failed for"@]);
            assert(views(r.none@) =~= Seq::<Seq<char>>::empty());
            assert(views(r.steps@) =~= seq!["Sign in again under Settings → GitHub and Git identity."@, "Confirm the remote URL uses HTTPS rather than SSH."@, "Retry the push or pull."@]);
        }
        r
    } else if i == 8 {
        push_str(&mut any, "unauthorized");
        push_str(&mut any, "invalid username or password");
        push_str(&mut any, "the user name or password is incorrect");
        push_str(&mut any, "401");
        push_str(&mut none, "repository not found");
        push_str(&mut none, "github.com");
        push_str(&mut steps, "Open the Environments screen and re-enter the credentials for this environment.");
        push_str(&mut steps, "Confirm the account can sign in to Creatio directly in a browser.");
        push_str(&mut steps, "Check that the account is not locked or password-expired in Creatio.");
        let r = Rule {
            code: owned("creatio-auth"),
            all,
            any,
            none,
            summary: owned("Creatio rejected the environment's credentials."),
            cause: owned("The stored user name or password for this environment is wrong or expired, or the account is locked in Creatio."),
            steps,
        };
        proof {
            assert(views(r.all@) =~= Seq::<Seq<char>>::empty());
            assert(views(r.any@) =~= seq!["unauthorized"@, "invalid username or password"@, "the user name or password is incorrect"@, "401"@]);
            assert(views(r.none@) =~= seq!["repository not found"@, "github.com"@]);
            assert(views(r.steps@) =~= seq!["Open the Environments screen and re-enter the credentials for this environment."@, "Confirm the account can sign in to Creatio directly in a browser."@, "Check that the account is not locked or password-expired in Creatio."@]);
        }
        r
    } else if i == 9 {
        push_str(&mut any, "23503");
        push_str(&mut any, "violates foreign key constraint");
        push_str(&mut steps, "Find the referenced table and id in the error above.");
        push_str(&mut steps, "Migrate or create the referenced record in the target environment first, or clear the reference.");
        push_str(&mut steps, "Retry the operation.");
        let r = Rule {
            code: owned("sql-fk-violation"),
            all,
            any,
            none,
            summary: owned("A record refers to another record the target environment does not have."),
            cause: owned("The database rejected the write with error 23503: a foreign key points at a row that does not exist in this environment, such as an owner or a parent record that was not migrated."),
            steps,
        };
        proof {
            assert(views(r.all@) =~= Seq::<Seq<char>>::empty());
            assert(views(r.any@) =~= seq!["23503"@, "violates foreign key constraint"@]);
            assert(views(r.none@) =~= Seq::<Seq<char>>::empty());
            assert(views(r.steps@) =~= seq!["Find the referenced table and id in the error above."@, "Migrate or create the referenced record in the target environment first, or clear the reference."@, "Retry the operation."@]);
        }
        r
    } else if i == 10 {
        push_str(&mut any, "no such host");
        push_str(&mut any, "connection refused");
        push_str(&mut any, "actively refused");
        push_str(&mut any, "timed out");
        push_str(&mut any, "unable to connect");
        push_str(&mut any, "name or service not known");
        push_str(&mut any, "(503)");
        push_str(&mut any, "http 503");
        push_str(&mut any, "503 service unavailable");
        push_str(&mut any, "(502)");
        push_str(&mut any, "http 502");
        push_str(&mut any, "502 bad gateway");
        push_str(&mut none, "23503");
        push_str(&mut none, "23502");
        push_str(&mut none, "foreign key constraint");
        push_str(&mut steps, "Open the environment URL in a browser to confirm it responds.");
        push_str(&mut steps, "For a local environment, check the site is started in IIS.");
        push_str(&mut steps, "For a remote environment, confirm any required VPN is connected.");
        push_str(&mut steps, "Verify the URL under the Environments screen.");
        let r = Rule {
            code: owned("creatio-unreachable"),
            all,
            any,
            none,
            summary: owned("The Creatio environment could not be reached."),
            cause: owned("The URL, the site, or the network path to it is unavailable — a stopped local IIS site and a VPN that is not connected both look like this."),
            steps,
        };
        proof {
            assert(views(r.all@) =~= Seq::<Seq<char>>::empty());
            assert(views(r.any@) =~= seq!["no such host"@, "connection refused"@, "actively refused"@, "timed out"@, "unable to connect"@, "name or service not known"@, "(503)"@, "http 503"@, "503 service unavailable"@, "(502)"@, "http 502"@, "502 bad gateway"@]);
            assert(views(r.none@) =~= seq!["23503"@, "23502"@, "foreign key constraint"@]);
            assert(views(r.steps@) =~= seq!["Open the environment URL in a browser to confirm it responds."@, "For a local environment, check the site is started in IIS."@, "For a remote environment, confirm any required VPN is connected."@, "Verify the URL under the Environments screen."@]);
        }
        r
    } else {
        push_str(&mut any, "forbidden");
        push_str(&mut any, "403");
        push_str(&mut none, "repository not found");
        push_str(&mut none, "github.com");
        push_str(&mut steps, "Use an environment account with system-administrator rights.");
        push_str(&mut steps, "Confirm the operation is permitted in this environment — some hosted environments block direct SQL.");
        let r = Rule {
            code: owned("creatio-forbidden"),
            all,
            any,
            none,
            summary: owned("Creatio accepted the sign-in but refused the operation."),
            cause: owned("The environment account authenticated correctly but lacks the rights the operation needs — package management and SQL execution both require elevated access."),
            steps,
        };
        proof {
            assert(views(r.all@) =~= Seq::<Seq<char>>::empty());
            assert(views(r.any@) =~= seq!["forbidden"@, "403"@]);
            assert(views(r.none@) =~= seq!["repository not found"@, "github.com"@]);
            assert(views(r.steps@) =~= seq!["Use an environment account with system-administrator rights."@, "Confirm the operation is permitted in this environment — some hosted environments block direct SQL."@]);
        }
        r
    }
}

/// Every rule of the table, in order.
pub fn rules() -> (r: Vec<Rule>)
    ensures
        r.len() == RULE_COUNT,
        forall|i: int| 0 <= i < RULE_COUNT ==> (#[trigger] r@[i])@ == spec_rule(i),
{
    let mut r: Vec<Rule> = Vec::new();
    let mut i: usize = 0;
    while i < RULE_COUNT
        invariant
            i <= RULE_COUNT,
            r.len() == i,
            forall|k: int| 0 <= k < i ==> (#[trigger] r@[k])@ == spec_rule(k),
        decreases RULE_COUNT - i,
    {
        r.push(rule(i));
        i = i + 1;
    }
    r
}

/// Every needle of `ns` occurs in `h`.
pub open spec fn all_in(h: Seq<char>, ns: Seq<Seq<char>>) -> bool {
    forall|k: int| 0 <= k < ns.len() ==> contains_sub(h, #[trigger] ns[k])
}

/// Some needle of `ns` occurs in `h`.
pub open spec fn any_in(h: Seq<char>, ns: Seq<Seq<char>>) -> bool {
    exists|k: int| 0 <= k < ns.len() && contains_sub(h, #[trigger] ns[k])
}

/// Whether a rule matches the (already lowercased) text `h`.
pub open spec fn rule_matches(r: RuleView, h: Seq<char>) -> bool {
    all_in(h, r.all) && (r.any.len() == 0 || any_in(h, r.any)) && !any_in(h, r.none)
}

/// Index of the first rule at or after `from` that matches `h`, or -1.
pub open spec fn first_matching_rule(h: Seq<char>, from: int) -> int
    decreases RULE_COUNT - from,
{
    if from < 0 || from >= RULE_COUNT {
        -1
    } else if rule_matches(spec_rule(from), h) {
        from
    } else {
        first_matching_rule(h, from + 1)
    }
}

/// The diagnosis a rule gives.
pub open spec fn diagnosis_of(r: RuleView) -> DiagnosisView {
    DiagnosisView { code: r.code, summary: r.summary, cause: r.cause, steps: r.steps }
}

/// The diagnosis for text that is already lowercased: the first matching rule's.
pub open spec fn spec_diagnose_lowered(h: Seq<char>) -> Option<DiagnosisView> {
    let i = first_matching_rule(h, 0);
    if i < 0 {
        None
    } else {
        Some(diagnosis_of(spec_rule(i)))
    }
}

/// The diagnosis for raw tool output: matching is done on its lowercase form.
pub open spec fn spec_diagnose(raw: Seq<char>) -> Option<DiagnosisView> {
    spec_diagnose_lowered(spec_to_lowercase(raw))
}

/// Recognition reads only the lowercased text: two texts that lowercase
/// alike are explained alike.
pub proof fn lemma_diagnosis_reads_lowercased_text(a: Seq<char>, b: Seq<char>)
    requires
        spec_to_lowercase(a) == spec_to_lowercase(b),
    ensures
        spec_diagnose(a) == spec_diagnose(b),
{
}

fn all_present(h: &str, ns: &Vec<String>) -> (b: bool)
    ensures
        b == all_in(h@, views(ns@)),
{
    let mut k: usize = 0;
    while k < ns.len()
        invariant
            k <= ns.len(),
            forall|j: int| 0 <= j < k ==> contains_sub(h@, #[trigger] views(ns@)[j]),
        decreases ns.len() - k,
    {
        if !contains(h, ns[k].as_str()) {
            assert(!contains_sub(h@, views(ns@)[k as int]));
            return false;
        }
        k = k + 1;
    }
    true
}

fn any_present(h: &str, ns: &Vec<String>) -> (b: bool)
    ensures
        b == any_in(h@, views(ns@)),
{
    let mut k: usize = 0;
    while k < ns.len()
        invariant
            k <= ns.len(),
            forall|j: int| 0 <= j < k ==> !contains_sub(h@, #[trigger] views(ns@)[j]),
        decreases ns.len() - k,
    {
        if contains(h, ns[k].as_str()) {
            assert(contains_sub(h@, views(ns@)[k as int]));
            return true;
        }
        k = k + 1;
    }
    false
}

/// Whether `rule` matches the (already lowercased) `haystack`.
pub fn matches(rule: &Rule, haystack: &str) -> (b: bool)
    ensures
        b == rule_matches(rule@, haystack@),
{
    all_present(haystack, &rule.all) && (rule.any.len() == 0 || any_present(haystack, &rule.any))
        && !any_present(haystack, &rule.none)
}

proof fn lemma_first_matching_rule_skip(h: Seq<char>, i: int)
    requires
        0 <= i <= RULE_COUNT,
        forall|j: int| 0 <= j < i ==> !rule_matches(#[trigger] spec_rule(j), h),
    ensures
        first_matching_rule(h, 0) == first_matching_rule(h, i),
    decreases i,
{
    if i > 0 {
        lemma_first_matching_rule_skip(h, i - 1);
    }
}

// ------------------------------------------------------- recognition laws

/// Whether the lowercased text `h` holds every needle of `all`, one of `any`
/// (when it lists any) and none of `none`.
pub open spec fn carries(h: Seq<char>, all: Seq<Seq<char>>, any: Seq<Seq<char>>, none: Seq<Seq<char>>) -> bool {
    all_in(h, all) && (any.len() == 0 || any_in(h, any)) && !any_in(h, none)
}

/// Output whose lowercased text holds every one of `could not load file or assembly` is diagnosed `clio-damaged`.
pub proof fn lemma_diagnoses_clio_damaged(raw: Seq<char>)
    requires
        carries(spec_to_lowercase(raw), seq!["could not load file or assembly"@], Seq::<Seq<char>>::empty(), Seq::<Seq<char>>::empty()),
    ensures
        spec_diagnose(raw) matches Some(d) && d.code == "clio-damaged"@,
{
    let h = spec_to_lowercase(raw);
    lemma_first_matching_rule_skip(h, 0);
    assert(rule_matches(spec_rule(0), h));
}

/// Output whose lowercased text holds one of `failed to uninstall tool package`, `being used by another process`, `access to the path` and none of an earlier rule's, is diagnosed `clio-locked`.
pub proof fn lemma_diagnoses_clio_locked(raw: Seq<char>)
    requires
        carries(spec_to_lowercase(raw), Seq::<Seq<char>>::empty(), seq!["failed to uninstall tool package"@, "being used by another process"@, "access to the path"@], Seq::<Seq<char>>::empty()),
        !carries(spec_to_lowercase(raw), seq!["could not load file or assembly"@], Seq::<Seq<char>>::empty(), Seq::<Seq<char>>::empty()),
    ensures
        spec_diagnose(raw) matches Some(d) && d.code == "clio-locked"@,
{
    let h = spec_to_lowercase(raw);
    assert forall|j: int| 0 <= j < 1 implies !rule_matches(#[trigger] spec_rule(j), h) by {
        if j == 0 {
            assert(!rule_matches(spec_rule(0), h));
        }
    }
    lemma_first_matching_rule_skip(h, 1);
    assert(rule_matches(spec_rule(1), h));
}

/// Output whose lowercased text holds every one of `column`, `does not exist`, `42703` and none of an earlier rule's, is diagnosed `sql-column-missing`.
pub proof fn lemma_diagnoses_sql_column_missing(raw: Seq<char>)
    requires
        carries(spec_to_lowercase(raw), seq!["column"@, "does not exist"@, "42703"@], Seq::<Seq<char>>::empty(), Seq::<Seq<char>>::empty()),
        !carries(spec_to_lowercase(raw), seq!["could not load file or assembly"@], Seq::<Seq<char>>::empty(), Seq::<Seq<char>>::empty()),
        !carries(spec_to_lowercase(raw), Seq::<Seq<char>>::empty(), seq!["failed to uninstall tool package"@, "being used by another process"@, "access to the path"@], Seq::<Seq<char>>::empty()),
    ensures
        spec_diagnose(raw) matches Some(d) && d.code == "sql-column-missing"@,
{
    let h = spec_to_lowercase(raw);
    assert forall|j: int| 0 <= j < 2 implies !rule_matches(#[trigger] spec_rule(j), h) by {
        if j == 0 {
            assert(!rule_matches(spec_rule(0), h));
        } else if j == 1 {
            assert(!rule_matches(spec_rule(1), h));
        }
    }
    lemma_first_matching_rule_skip(h, 2);
    assert(rule_matches(spec_rule(2), h));
}

/// Output whose lowercased text holds every one of `cliogate`; one of `install`, `not found`, `is not installed`, `version` and none of an earlier rule's, is diagnosed `cliogate-missing`.
pub proof fn lemma_diagnoses_cliogate_missing(raw: Seq<char>)
    requires
        carries(spec_to_lowercase(raw), seq!["cliogate"@], seq!["install"@, "not found"@, "is not installed"@, "version"@], Seq::<Seq<char>>::empty()),
        !carries(spec_to_lowercase(raw), seq!["could not load file or assembly"@], Seq::<Seq<char>>::empty(), Seq::<Seq<char>>::empty()),
        !carries(spec_to_lowercase(raw), Seq::<Seq<char>>::empty(), seq!["failed to uninstall tool package"@, "being used by another process"@, "access to the path"@], Seq::<Seq<char>>::empty()),
        !carries(spec_to_lowercase(raw), seq!["column"@, "does not exist"@, "42703"@], Seq::<Seq<char>>::empty(), Seq::<Seq<char>>::empty()),
    ensures
        spec_diagnose(raw) matches Some(d) && d.code == "cliogate-missing"@,
{
    let h = spec_to_lowercase(raw);
    assert forall|j: int| 0 <= j < 3 implies !rule_matches(#[trigger] spec_rule(j), h) by {
        if j == 0 {
            assert(!rule_matches(spec_rule(0), h));
        } else if j == 1 {
            assert(!rule_matches(spec_rule(1), h));
        } else if j == 2 {
            assert(!rule_matches(spec_rule(2), h));
        }
    }
    lemma_first_matching_rule_skip(h, 3);
    assert(rule_matches(spec_rule(3), h));
}

/// Output whose lowercased text holds one of `is not recognized`, `no such file or directory`, `could not find clio`, `could not find gh`, `could not find git`, `could not find dotnet`, `the system cannot find the file specified`; none of `could not load file or assembly` and none of an earlier rule's, is diagnosed `tool-missing`.
pub proof fn lemma_diagnoses_tool_missing(raw: Seq<char>)
    requires
        carries(spec_to_lowercase(raw), Seq::<Seq<char>>::empty(), seq!["is not recognized"@, "no such file or directory"@, "could not find clio"@, "could not find gh"@, "could not find git"@, "could not find dotnet"@, "the system cannot find the file specified"@], seq!["could not load file or assembly"@]),
        !carries(spec_to_lowercase(raw), seq!["could not load file or assembly"@], Seq::<Seq<char>>::empty(), Seq::<Seq<char>>::empty()),
        !carries(spec_to_lowercase(raw), Seq::<Seq<char>>::empty(), seq!["failed to uninstall tool package"@, "being used by another process"@, "access to the path"@], Seq::<Seq<char>>::empty()),
        !carries(spec_to_lowercase(raw), seq!["column"@, "does not exist"@, "42703"@], Seq::<Seq<char>>::empty(), Seq::<Seq<char>>::empty()),
        !carries(spec_to_lowercase(raw), seq!["cliogate"@], seq!["install"@, "not found"@, "is not installed"@, "version"@], Seq::<Seq<char>>::empty()),
    ensures
        spec_diagnose(raw) matches Some(d) && d.code == "tool-missing"@,
{
    let h = spec_to_lowercase(raw);
    assert forall|j: int| 0 <= j < 4 implies !rule_matches(#[trigger] spec_rule(j), h) by {
        if j == 0 {
            assert(!rule_matches(spec_rule(0), h));
        } else if j == 1 {
            assert(!rule_matches(spec_rule(1), h));
        } else if j == 2 {
            assert(!rule_matches(spec_rule(2), h));
        } else if j == 3 {
            assert(!rule_matches(spec_rule(3), h));
        }
    }
    lemma_first_matching_rule_skip(h, 4);
    assert(rule_matches(spec_rule(4), h));
}

/// Output whose lowercased text holds one of `non-fast-forward`, `updates were rejected`, `fetch first` and none of an earlier rule's, is diagnosed `git-push-rejected`.
pub proof fn lemma_diagnoses_git_push_rejected(raw: Seq<char>)
    requires
        carries(spec_to_lowercase(raw), Seq::<Seq<char>>::empty(), seq!["non-fast-forward"@, "updates were rejected"@, "fetch first"@], Seq::<Seq<char>>::empty()),
        !carries(spec_to_lowercase(raw), seq!["could not load file or assembly"@], Seq::<Seq<char>>::empty(), Seq::<Seq<char>>::empty()),
        !carries(spec_to_lowercase(raw), Seq::<Seq<char>>::empty(), seq!["failed to uninstall tool package"@, "being used by another process"@, "access to the path"@], Seq::<Seq<char>>::empty()),
        !carries(spec_to_lowercase(raw), seq!["column"@, "does not exist"@, "42703"@], Seq::<Seq<char>>::empty(), Seq::<Seq<char>>::empty()),
        !carries(spec_to_lowercase(raw), seq!["cliogate"@], seq!["install"@, "not found"@, "is not installed"@, "version"@], Seq::<Seq<char>>::empty()),
        !carries(spec_to_lowercase(raw), Seq::<Seq<char>>::empty(), seq!["is not recognized"@, "no such file or directory"@, "could not find clio"@, "could not find gh"@, "could not find git"@, "could not find dotnet"@, "the system cannot find the file specified"@], seq!["could not load file or assembly"@]),
    ensures
        spec_diagnose(raw) matches Some(d) && d.code == "git-push-rejected"@,
{
    let h = spec_to_lowercase(raw);
    assert forall|j: int| 0 <= j < 5 implies !rule_matches(#[trigger] spec_rule(j), h) by {
        if j == 0 {
            assert(!rule_matches(spec_rule(0), h));
        } else if j == 1 {
            assert(!rule_matches(spec_rule(1), h));
        } else if j == 2 {
            assert(!rule_matches(spec_rule(2), h));
        } else if j == 3 {
            assert(!rule_matches(spec_rule(3), h));
        } else if j == 4 {
            assert(!rule_matches(spec_rule(4), h));
        }
    }
    lemma_first_matching_rule_skip(h, 5);
    assert(rule_matches(spec_rule(5), h));
}

/// Output whose lowercased text holds every one of `repository not found` and none of an earlier rule's, is diagnosed `git-repo-access`.
pub proof fn lemma_diagnoses_git_repo_access(raw: Seq<char>)
    requires
        carries(spec_to_lowercase(raw), seq!["repository not found"@], Seq::<Seq<char>>::empty(), Seq::<Seq<char>>::empty()),
        !carries(spec_to_lowercase(raw), seq!["could not load file or assembly"@], Seq::<Seq<char>>::empty(), Seq::<Seq<char>>::empty()),
        !carries(spec_to_lowercase(raw), Seq::<Seq<char>>::empty(), seq!["failed to uninstall tool package"@, "being used by another process"@, "access to the path"@], Seq::<Seq<char>>::empty()),
        !carries(spec_to_lowercase(raw), seq!["column"@, "does not exist"@, "42703"@], Seq::<Seq<char>>::empty(), Seq::<Seq<char>>::empty()),
        !carries(spec_to_lowercase(raw), seq!["cliogate"@], seq!["install"@, "not found"@, "is not installed"@, "version"@], Seq::<Seq<char>>::empty()),
        !carries(spec_to_lowercase(raw), Seq::<Seq<char>>::empty(), seq!["is not recognized"@, "no such file or directory"@, "could not find clio"@, "could not find gh"@, "could not find git"@, "could not find dotnet"@, "the system cannot find the file specified"@], seq!["could not load file or assembly"@]),
        !carries(spec_to_lowercase(raw), Seq::<Seq<char>>::empty(), seq!["non-fast-forward"@, "updates were rejected"@, "fetch first"@], Seq::<Seq<char>>::empty()),
    ensures
        spec_diagnose(raw) matches Some(d) && d.code == "git-repo-access"@,
{
    let h = spec_to_lowercase(raw);
    assert forall|j: int| 0 <= j < 6 implies !rule_matches(#[trigger] spec_rule(j), h) by {
        if j == 0 {
            assert(!rule_matches(spec_rule(0), h));
        } else if j == 1 {
            assert(!rule_matches(spec_rule(1), h));
        } else if j == 2 {
            assert(!rule_matches(spec_rule(2), h));
        } else if j == 3 {
            assert(!rule_matches(spec_rule(3), h));
        } else if j == 4 {
            assert(!rule_matches(spec_rule(4), h));
        } else if j == 5 {
            assert(!rule_matches(spec_rule(5), h));
        }
    }
    lemma_first_matching_rule_skip(h, 6);
    assert(rule_matches(spec_rule(6), h));
}

/// Output whose lowercased text holds one of `could not read username`, `terminal prompts disabled`, `authentication failed for` and none of an earlier rule's, is diagnosed `git-auth`.
pub proof fn lemma_diagnoses_git_auth(raw: Seq<char>)
    requires
        carries(spec_to_lowercase(raw), Seq::<Seq<char>>::empty(), seq!["could not read username"@, "terminal prompts disabled"@, "authentication failed for"@], Seq::<Seq<char>>::empty()),
        !carries(spec_to_lowercase(raw), seq!["could not load file or assembly"@], Seq::<Seq<char>>::empty(), Seq::<Seq<char>>::empty()),
        !carries(spec_to_lowercase(raw), Seq::<Seq<char>>::empty(), seq!["failed to uninstall tool package"@, "being used by another process"@, "access to the path"@], Seq::<Seq<char>>::empty()),
        !carries(spec_to_lowercase(raw), seq!["column"@, "does not exist"@, "42703"@], Seq::<Seq<char>>::empty(), Seq::<Seq<char>>::empty()),
        !carries(spec_to_lowercase(raw), seq!["cliogate"@], seq!["install"@, "not found"@, "is not installed"@, "version"@], Seq::<Seq<char>>::empty()),
        !carries(spec_to_lowercase(raw), Seq::<Seq<char>>::empty(), seq!["is not recognized"@, "no such file or directory"@, "could not find clio"@, "could not find gh"@, "could not find git"@, "could not find dotnet"@, "the system cannot find the file specified"@], seq!["could not load file or assembly"@]),
        !carries(spec_to_lowercase(raw), Seq::<Seq<char>>::empty(), seq!["non-fast-forward"@, "updates were rejected"@, "fetch first"@], Seq::<Seq<char>>::empty()),
        !carries(spec_to_lowercase(raw), seq!["repository not found"@], Seq::<Seq<char>>::empty(), Seq::<Seq<char>>::empty()),
    ensures
        spec_diagnose(raw) matches Some(d) && d.code == "git-auth"@,
{
    let h = spec_to_lowercase(raw);
    assert forall|j: int| 0 <= j < 7 implies !rule_matches(#[trigger] spec_rule(j), h) by {
        if j == 0 {
            assert(!rule_matches(spec_rule(0), h));
        } else if j == 1 {
            assert(!rule_matches(spec_rule(1), h));
        } else if j == 2 {
            assert(!rule_matches(spec_rule(2), h));
        } else if j == 3 {
            assert(!rule_matches(spec_rule(3), h));
        } else if j == 4 {
            assert(!rule_matches(spec_rule(4), h));
        } else if j == 5 {
            assert(!rule_matches(spec_rule(5), h));
        } else if j == 6 {
            assert(!rule_matches(spec_rule(6), h));
        }
    }
    lemma_first_matching_rule_skip(h, 7);
    assert(rule_matches(spec_rule(7), h));
}

/// Output whose lowercased text holds one of `unauthorized`, `invalid username or password`, `the user name or password is incorrect`, `401`; none of `repository not found`, `github.com` and none of an earlier rule's, is diagnosed `creatio-auth`.
pub proof fn lemma_diagnoses_creatio_auth(raw: Seq<char>)
    requires
        carries(spec_to_lowercase(raw), Seq::<Seq<char>>::empty(), seq!["unauthorized"@, "invalid username or password"@, "the user name or password is incorrect"@, "401"@], seq!["repository not found"@, "github.com"@]),
        !carries(spec_to_lowercase(raw), seq!["could not load file or assembly"@], Seq::<Seq<char>>::empty(), Seq::<Seq<char>>::empty()),
        !carries(spec_to_lowercase(raw), Seq::<Seq<char>>::empty(), seq!["failed to uninstall tool package"@, "being used by another process"@, "access to the path"@], Seq::<Seq<char>>::empty()),
        !carries(spec_to_lowercase(raw), seq!["column"@, "does not exist"@, "42703"@], Seq::<Seq<char>>::empty(), Seq::<Seq<char>>::empty()),
        !carries(spec_to_lowercase(raw), seq!["cliogate"@], seq!["install"@, "not found"@, "is not installed"@, "version"@], Seq::<Seq<char>>::empty()),
        !carries(spec_to_lowercase(raw), Seq::<Seq<char>>::empty(), seq!["is not recognized"@, "no such file or directory"@, "could not find clio"@, "could not find gh"@, "could not find git"@, "could not find dotnet"@, "the system cannot find the file specified"@], seq!["could not load file or assembly"@]),
        !carries(spec_to_lowercase(raw), Seq::<Seq<char>>::empty(), seq!["non-fast-forward"@, "updates were rejected"@, "fetch first"@], Seq::<Seq<char>>::empty()),
        !carries(spec_to_lowercase(raw), seq!["repository not found"@], Seq::<Seq<char>>::empty(), Seq::<Seq<char>>::empty()),
        !carries(spec_to_lowercase(raw), Seq::<Seq<char>>::empty(), seq!["could not read username"@, "terminal prompts disabled"@, "authentication failed for"@], Seq::<Seq<char>>::empty()),
    ensures
        spec_diagnose(raw) matches Some(d) && d.code == "creatio-auth"@,
{
    let h = spec_to_lowercase(raw);
    assert forall|j: int| 0 <= j < 8 implies !rule_matches(#[trigger] spec_rule(j), h) by {
        if j == 0 {
            assert(!rule_matches(spec_rule(0), h));
        } else if j == 1 {
            assert(!rule_matches(spec_rule(1), h));
        } else if j == 2 {
            assert(!rule_matches(spec_rule(2), h));
        } else if j == 3 {
            assert(!rule_matches(spec_rule(3), h));
        } else if j == 4 {
            assert(!rule_matches(spec_rule(4), h));
        } else if j == 5 {
            assert(!rule_matches(spec_rule(5), h));
        } else if j == 6 {
            assert(!rule_matches(spec_rule(6), h));
        } else if j == 7 {
            assert(!rule_matches(spec_rule(7), h));
        }
    }
    lemma_first_matching_rule_skip(h, 8);
    assert(rule_matches(spec_rule(8), h));
}

/// Output whose lowercased text holds one of `23503`, `violates foreign key constraint` and none of an earlier rule's, is diagnosed `sql-fk-violation`.
pub proof fn lemma_diagnoses_sql_fk_violation(raw: Seq<char>)
    requires
        carries(spec_to_lowercase(raw), Seq::<Seq<char>>::empty(), seq!["23503"@, "violates foreign key constraint"@], Seq::<Seq<char>>::empty()),
        !carries(spec_to_lowercase(raw), seq!["could not load file or assembly"@], Seq::<Seq<char>>::empty(), Seq::<Seq<char>>::empty()),
        !carries(spec_to_lowercase(raw), Seq::<Seq<char>>::empty(), seq!["failed to uninstall tool package"@, "being used by another process"@, "access to the path"@], Seq::<Seq<char>>::empty()),
        !carries(spec_to_lowercase(raw), seq!["column"@, "does not exist"@, "42703"@], Seq::<Seq<char>>::empty(), Seq::<Seq<char>>::empty()),
        !carries(spec_to_lowercase(raw), seq!["cliogate"@], seq!["install"@, "not found"@, "is not installed"@, "version"@], Seq::<Seq<char>>::empty()),
        !carries(spec_to_lowercase(raw), Seq::<Seq<char>>::empty(), seq!["is not recognized"@, "no such file or directory"@, "could not find clio"@, "could not find gh"@, "could not find git"@, "could not find dotnet"@, "the system cannot find the file specified"@], seq!["could not load file or assembly"@]),
        !carries(spec_to_lowercase(raw), Seq::<Seq<char>>::empty(), seq!["non-fast-forward"@, "updates were rejected"@, "fetch first"@], Seq::<Seq<char>>::empty()),
        !carries(spec_to_lowercase(raw), seq!["repository not found"@], Seq::<Seq<char>>::empty(), Seq::<Seq<char>>::empty()),
        !carries(spec_to_lowercase(raw), Seq::<Seq<char>>::empty(), seq!["could not read username"@, "terminal prompts disabled"@, "authentication failed for"@], Seq::<Seq<char>>::empty()),
        !carries(spec_to_lowercase(raw), Seq::<Seq<char>>::empty(), seq!["unauthorized"@, "invalid username or password"@, "the user name or password is incorrect"@, "401"@], seq!["repository not found"@, "github.com"@]),
    ensures
        spec_diagnose(raw) matches Some(d) && d.code == "sql-fk-violation"@,
{
    let h = spec_to_lowercase(raw);
    assert forall|j: int| 0 <= j < 9 implies !rule_matches(#[trigger] spec_rule(j), h) by {
        if j == 0 {
            assert(!rule_matches(spec_rule(0), h));
        } else if j == 1 {
            assert(!rule_matches(spec_rule(1), h));
        } else if j == 2 {
            assert(!rule_matches(spec_rule(2), h));
        } else if j == 3 {
            assert(!rule_matches(spec_rule(3), h));
        } else if j == 4 {
            assert(!rule_matches(spec_rule(4), h));
        } else if j == 5 {
            assert(!rule_matches(spec_rule(5), h));
        } else if j == 6 {
            assert(!rule_matches(spec_rule(6), h));
        } else if j == 7 {
            assert(!rule_matches(spec_rule(7), h));
        } else if j == 8 {
            assert(!rule_matches(spec_rule(8), h));
        }
    }
    lemma_first_matching_rule_skip(h, 9);
    assert(rule_matches(spec_rule(9), h));
}

/// Output whose lowercased text holds one of `no such host`, `connection refused`, `actively refused`, `timed out`, `unable to connect`, `name or service not known`, `(503)`, `http 503`, `503 service unavailable`, `(502)`, `http 502`, `502 bad gateway`; none of `23503`, `23502`, `foreign key constraint` and none of an earlier rule's, is diagnosed `creatio-unreachable`.
pub proof fn lemma_diagnoses_creatio_unreachable(raw: Seq<char>)
    requires
        carries(spec_to_lowercase(raw), Seq::<Seq<char>>::empty(), seq!["no such host"@, "connection refused"@, "actively refused"@, "timed out"@, "unable to connect"@, "name or service not known"@, "(503)"@, "http 503"@, "503 service unavailable"@, "(502)"@, "http 502"@, "502 bad gateway"@], seq!["23503"@, "23502"@, "foreign key constraint"@]),
        !carries(spec_to_lowercase(raw), seq!["could not load file or assembly"@], Seq::<Seq<char>>::empty(), Seq::<Seq<char>>::empty()),
        !carries(spec_to_lowercase(raw), Seq::<Seq<char>>::empty(), seq!["failed to uninstall tool package"@, "being used by another process"@, "access to the path"@], Seq::<Seq<char>>::empty()),
        !carries(spec_to_lowercase(raw), seq!["column"@, "does not exist"@, "42703"@], Seq::<Seq<char>>::empty(), Seq::<Seq<char>>::empty()),
        !carries(spec_to_lowercase(raw), seq!["cliogate"@], seq!["install"@, "not found"@, "is not installed"@, "version"@], Seq::<Seq<char>>::empty()),
        !carries(spec_to_lowercase(raw), Seq::<Seq<char>>::empty(), seq!["is not recognized"@, "no such file or directory"@, "could not find clio"@, "could not find gh"@, "could not find git"@, "could not find dotnet"@, "the system cannot find the file specified"@], seq!["could not load file or assembly"@]),
        !carries(spec_to_lowercase(raw), Seq::<Seq<char>>::empty(), seq!["non-fast-forward"@, "updates were rejected"@, "fetch first"@], Seq::<Seq<char>>::empty()),
        !carries(spec_to_lowercase(raw), seq!["repository not found"@], Seq::<Seq<char>>::empty(), Seq::<Seq<char>>::empty()),
        !carries(spec_to_lowercase(raw), Seq::<Seq<char>>::empty(), seq!["could not read username"@, "terminal prompts disabled"@, "authentication failed for"@], Seq::<Seq<char>>::empty()),
        !carries(spec_to_lowercase(raw), Seq::<Seq<char>>::empty(), seq!["unauthorized"@, "invalid username or password"@, "the user name or password is incorrect"@, "401"@], seq!["repository not found"@, "github.com"@]),
        !carries(spec_to_lowercase(raw), Seq::<Seq<char>>::empty(), seq!["23503"@, "violates foreign key constraint"@], Seq::<Seq<char>>::empty()),
    ensures
        spec_diagnose(raw) matches Some(d) && d.code == "creatio-unreachable"@,
{
    let h = spec_to_lowercase(raw);
    assert forall|j: int| 0 <= j < 10 implies !rule_matches(#[trigger] spec_rule(j), h) by {
        if j == 0 {
            assert(!rule_matches(spec_rule(0), h));
        } else if j == 1 {
            assert(!rule_matches(spec_rule(1), h));
        } else if j == 2 {
            assert(!rule_matches(spec_rule(2), h));
        } else if j == 3 {
            assert(!rule_matches(spec_rule(3), h));
        } else if j == 4 {
            assert(!rule_matches(spec_rule(4), h));
        } else if j == 5 {
            assert(!rule_matches(spec_rule(5), h));
        } else if j == 6 {
            assert(!rule_matches(spec_rule(6), h));
        } else if j == 7 {
            assert(!rule_matches(spec_rule(7), h));
        } else if j == 8 {
            assert(!rule_matches(spec_rule(8), h));
        } else if j == 9 {
            assert(!rule_matches(spec_rule(9), h));
        }
    }
    lemma_first_matching_rule_skip(h, 10);
    assert(rule_matches(spec_rule(10), h));
}

/// Output whose lowercased text holds one of `forbidden`, `403`; none of `repository not found`, `github.com` and none of an earlier rule's, is diagnosed `creatio-forbidden`.
pub proof fn lemma_diagnoses_creatio_forbidden(raw: Seq<char>)
    requires
        carries(spec_to_lowercase(raw), Seq::<Seq<char>>::empty(), seq!["forbidden"@, "403"@], seq!["repository not found"@, "github.com"@]),
        !carries(spec_to_lowercase(raw), seq!["could not load file or assembly"@], Seq::<Seq<char>>::empty(), Seq::<Seq<char>>::empty()),
        !carries(spec_to_lowercase(raw), Seq::<Seq<char>>::empty(), seq!["failed to uninstall tool package"@, "being used by another process"@, "access to the path"@], Seq::<Seq<char>>::empty()),
        !carries(spec_to_lowercase(raw), seq!["column"@, "does not exist"@, "42703"@], Seq::<Seq<char>>::empty(), Seq::<Seq<char>>::empty()),
        !carries(spec_to_lowercase(raw), seq!["cliogate"@], seq!["install"@, "not found"@, "is not installed"@, "version"@], Seq::<Seq<char>>::empty()),
        !carries(spec_to_lowercase(raw), Seq::<Seq<char>>::empty(), seq!["is not recognized"@, "no such file or directory"@, "could not find clio"@, "could not find gh"@, "could not find git"@, "could not find dotnet"@, "the system cannot find the file specified"@], seq!["could not load file or assembly"@]),
        !carries(spec_to_lowercase(raw), Seq::<Seq<char>>::empty(), seq!["non-fast-forward"@, "updates were rejected"@, "fetch first"@], Seq::<Seq<char>>::empty()),
        !carries(spec_to_lowercase(raw), seq!["repository not found"@], Seq::<Seq<char>>::empty(), Seq::<Seq<char>>::empty()),
        !carries(spec_to_lowercase(raw), Seq::<Seq<char>>::empty(), seq!["could not read username"@, "terminal prompts disabled"@, "authentication failed for"@], Seq::<Seq<char>>::empty()),
        !carries(spec_to_lowercase(raw), Seq::<Seq<char>>::empty(), seq!["unauthorized"@, "invalid username or password"@, "the user name or password is incorrect"@, "401"@], seq!["repository not found"@, "github.com"@]),
        !carries(spec_to_lowercase(raw), Seq::<Seq<char>>::empty(), seq!["23503"@, "violates foreign key constraint"@], Seq::<Seq<char>>::empty()),
        !carries(spec_to_lowercase(raw), Seq::<Seq<char>>::empty(), seq!["no such host"@, "connection refused"@, "actively refused"@, "timed out"@, "unable to connect"@, "name or service not known"@, "(503)"@, "http 503"@, "503 service unavailable"@, "(502)"@, "http 502"@, "502 bad gateway"@], seq!["23503"@, "23502"@, "foreign key constraint"@]),
    ensures
        spec_diagnose(raw) matches Some(d) && d.code == "creatio-forbidden"@,
{
    let h = spec_to_lowercase(raw);
    assert forall|j: int| 0 <= j < 11 implies !rule_matches(#[trigger] spec_rule(j), h) by {
        if j == 0 {
            assert(!rule_matches(spec_rule(0), h));
        } else if j == 1 {
            assert(!rule_matches(spec_rule(1), h));
        } else if j == 2 {
            assert(!rule_matches(spec_rule(2), h));
        } else if j == 3 {
            assert(!rule_matches(spec_rule(3), h));
        } else if j == 4 {
            assert(!rule_matches(spec_rule(4), h));
        } else if j == 5 {
            assert(!rule_matches(spec_rule(5), h));
        } else if j == 6 {
            assert(!rule_matches(spec_rule(6), h));
        } else if j == 7 {
            assert(!rule_matches(spec_rule(7), h));
        } else if j == 8 {
            assert(!rule_matches(spec_rule(8), h));
        } else if j == 9 {
            assert(!rule_matches(spec_rule(9), h));
        } else if j == 10 {
            assert(!rule_matches(spec_rule(10), h));
        }
    }
    lemma_first_matching_rule_skip(h, 11);
    assert(rule_matches(spec_rule(11), h));
}

/// Output that shows the signs of no rule gets no diagnosis: the raw text is
/// shown instead.
pub proof fn lemma_unrecognized_output_has_no_diagnosis(raw: Seq<char>)
    requires
        !carries(spec_to_lowercase(raw), seq!["could not load file or assembly"@], Seq::<Seq<char>>::empty(), Seq::<Seq<char>>::empty()),
        !carries(spec_to_lowercase(raw), Seq::<Seq<char>>::empty(), seq!["failed to uninstall tool package"@, "being used by another process"@, "access to the path"@], Seq::<Seq<char>>::empty()),
        !carries(spec_to_lowercase(raw), seq!["column"@, "does not exist"@, "42703"@], Seq::<Seq<char>>::empty(), Seq::<Seq<char>>::empty()),
        !carries(spec_to_lowercase(raw), seq!["cliogate"@], seq!["install"@, "not found"@, "is not installed"@, "version"@], Seq::<Seq<char>>::empty()),
        !carries(spec_to_lowercase(raw), Seq::<Seq<char>>::empty(), seq!["is not recognized"@, "no such file or directory"@, "could not find clio"@, "could not find gh"@, "could not find git"@, "could not find dotnet"@, "the system cannot find the file specified"@], seq!["could not load file or assembly"@]),
        !carries(spec_to_lowercase(raw), Seq::<Seq<char>>::empty(), seq!["non-fast-forward"@, "updates were rejected"@, "fetch first"@], Seq::<Seq<char>>::empty()),
        !carries(spec_to_lowercase(raw), seq!["repository not found"@], Seq::<Seq<char>>::empty(), Seq::<Seq<char>>::empty()),
        !carries(spec_to_lowercase(raw), Seq::<Seq<char>>::empty(), seq!["could not read username"@, "terminal prompts disabled"@, "authentication failed for"@], Seq::<Seq<char>>::empty()),
        !carries(spec_to_lowercase(raw), Seq::<Seq<char>>::empty(), seq!["unauthorized"@, "invalid username or password"@, "the user name or password is incorrect"@, "401"@], seq!["repository not found"@, "github.com"@]),
        !carries(spec_to_lowercase(raw), Seq::<Seq<char>>::empty(), seq!["23503"@, "violates foreign key constraint"@], Seq::<Seq<char>>::empty()),
        !carries(spec_to_lowercase(raw), Seq::<Seq<char>>::empty(), seq!["no such host"@, "connection refused"@, "actively refused"@, "timed out"@, "unable to connect"@, "name or service not known"@, "(503)"@, "http 503"@, "503 service unavailable"@, "(502)"@, "http 502"@, "502 bad gateway"@], seq!["23503"@, "23502"@, "foreign key constraint"@]),
        !carries(spec_to_lowercase(raw), Seq::<Seq<char>>::empty(), seq!["forbidden"@, "403"@], seq!["repository not found"@, "github.com"@]),
    ensures
        spec_diagnose(raw) is None,
{
    let h = spec_to_lowercase(raw);
    assert forall|j: int| 0 <= j < 12 implies !rule_matches(#[trigger] spec_rule(j), h) by {
        if j == 0 {
            assert(!rule_matches(spec_rule(0), h));
        } else if j == 1 {
            assert(!rule_matches(spec_rule(1), h));
        } else if j == 2 {
            assert(!rule_matches(spec_rule(2), h));
        } else if j == 3 {
            assert(!rule_matches(spec_rule(3), h));
        } else if j == 4 {
            assert(!rule_matches(spec_rule(4), h));
        } else if j == 5 {
            assert(!rule_matches(spec_rule(5), h));
        } else if j == 6 {
            assert(!rule_matches(spec_rule(6), h));
        } else if j == 7 {
            assert(!rule_matches(spec_rule(7), h));
        } else if j == 8 {
            assert(!rule_matches(spec_rule(8), h));
        } else if j == 9 {
            assert(!rule_matches(spec_rule(9), h));
        } else if j == 10 {
            assert(!rule_matches(spec_rule(10), h));
        } else if j == 11 {
            assert(!rule_matches(spec_rule(11), h));
        }
    }
    lemma_first_matching_rule_skip(h, 12);
}

/// The diagnosis for text that is already lowercased.
pub fn diagnose_lowered(haystack: &str) -> (d: Option<Diagnosis>)
    ensures
        opt_diagnosis_view(d) == spec_diagnose_lowered(haystack@),
{
    let mut i: usize = 0;
    while i < RULE_COUNT
        invariant
            i <= RULE_COUNT,
            forall|j: int| 0 <= j < i ==> !rule_matches(#[trigger] spec_rule(j), haystack@),
        decreases RULE_COUNT - i,
    {
        let r = rule(i);
        if matches(&r, haystack) {
            proof {
                lemma_first_matching_rule_skip(haystack@, i as int);
            }
            return Some(Diagnosis { code: r.code, summary: r.summary, cause: r.cause, steps: r.steps });
        }
        i = i + 1;
    }
    proof {
        lemma_first_matching_rule_skip(haystack@, RULE_COUNT as int);
    }
    None
}

/// The best-known explanation for `raw`, if DevHub recognizes it. Matching is
/// case-insensitive: the text is lowercased first and every needle is lowercase.
pub fn diagnose(raw: &str) -> (d: Option<Diagnosis>)
    ensures
        opt_diagnosis_view(d) == spec_diagnose(raw@),
{
    let lowered = to_lowercase(raw);
    diagnose_lowered(lowered.as_str())
}

/// How many trailing log lines `diagnose_log` reads.
pub const LOG_TAIL: usize = 40;

/// The lines `diagnose_log` reads: the last `LOG_TAIL` of them.
pub open spec fn log_tail(lines: Seq<Seq<char>>) -> Seq<Seq<char>> {
    if lines.len() > LOG_TAIL {
        lines.skip(lines.len() - LOG_TAIL)
    } else {
        lines
    }
}

/// Diagnose the end of a job log, where the failure almost always is: the last
/// `LOG_TAIL` lines joined with newlines. An error scrolled above the tail is
/// not reported.
pub fn diagnose_log(lines: &[String]) -> (d: Option<Diagnosis>)
    ensures
        opt_diagnosis_view(d) == spec_diagnose(spec_join(log_tail(views(lines@)), "\n"@)),
{
    let start: usize = if lines.len() > LOG_TAIL {
        lines.len() - LOG_TAIL
    } else {
        0
    };
    let mut tail: Vec<String> = Vec::new();
    let mut i = start;
    while i < lines.len()
        invariant
            start <= i <= lines.len(),
            tail@ == lines@.subrange(start as int, i as int),
        decreases lines.len() - i,
    {
        tail.push(lines[i].clone());
        i = i + 1;
        assert(tail@ =~= lines@.subrange(start as int, i as int));
    }
    proof {
        assert(views(tail@) =~= log_tail(views(lines@)));
    }
    let text = join(&tail, "\n");
    diagnose(text.as_str())
}

// ------------------------------------------------------ exit codes lie

/// How a Creatio server error shows in tool output: pinned to HTTP forms,
/// since a bare `500` turns up in row counts and version strings.
pub open spec fn server_error_needles() -> Seq<Seq<char>> {
    seq!["internal server error"@, "(500)"@, "http 500"@, "status code 500"@]
}

/// The diagnosis of a run that exited 0 after Creatio answered with a server
/// error.
pub open spec fn spec_server_error() -> DiagnosisView {
    DiagnosisView {
        code: "creatio-server-error"@,
        summary: "Creatio reported a server error although the tool exited successfully."@,
        cause: "Creatio answered a request with HTTP 500. The tool printed the error but still ended with exit code 0, so the operation did not complete on the server."@,
        steps: seq![
            "Scroll up in the job log to the server error for the details."@,
            "Verify the target environment before retrying — a partial deployment may need its backup restored."@,
            "Retry the operation once the server error is resolved."@,
        ],
    }
}

/// What a log that ended with exit code 0 shows of a server error: the
/// `creatio-server-error` diagnosis when any line holds one of the server
/// error needles (ignoring case), else nothing.
pub open spec fn spec_failure_despite_zero_exit(lines: Seq<Seq<char>>) -> Option<DiagnosisView> {
    if any_in(spec_to_lowercase(spec_join(lines, "\n"@)), server_error_needles()) {
        Some(spec_server_error())
    } else {
        None
    }
}

/// A run that exited 0 is failed exactly when its log, lowercased, names an
/// HTTP 500 in one of its documented forms (`internal server error`,
/// `(500)`, `http 500`, `status code 500`); the diagnosis is then
/// `creatio-server-error`.
pub proof fn lemma_zero_exit_failure_reads_http_500(lines: Seq<Seq<char>>)
    ensures
        spec_failure_despite_zero_exit(lines) is Some <==> any_in(
            spec_to_lowercase(spec_join(lines, "\n"@)),
            seq!["internal server error"@, "(500)"@, "http 500"@, "status code 500"@],
        ),
        spec_failure_despite_zero_exit(lines) is Some ==> spec_failure_despite_zero_exit(lines).unwrap().code
            == "creatio-server-error"@,
{
}

/// A server error behind a zero exit, read from the run's output lines.
pub fn failure_despite_zero_exit(lines: &[String]) -> (d: Option<Diagnosis>)
    ensures
        opt_diagnosis_view(d) == spec_failure_despite_zero_exit(views(lines@)),
{
    let mut all: Vec<String> = Vec::new();
    let mut i: usize = 0;
    while i < lines.len()
        invariant
            i <= lines.len(),
            all@ == lines@.take(i as int),
        decreases lines.len() - i,
    {
        all.push(lines[i].clone());
        i = i + 1;
        assert(all@ =~= lines@.take(i as int));
    }
    assert(all@ =~= lines@);
    let text = join(&all, "\n");
    let lowered = to_lowercase(text.as_str());
    let mut needles: Vec<String> = Vec::new();
    push_str(&mut needles, "internal server error");
    push_str(&mut needles, "(500)");
    push_str(&mut needles, "http 500");
    push_str(&mut needles, "status code 500");
    assert(views(needles@) =~= server_error_needles());
    if any_present(lowered.as_str(), &needles) {
        let mut steps: Vec<String> = Vec::new();
        push_str(&mut steps, "Scroll up in the job log to the server error for the details.");
        push_str(
            &mut steps,
            "Verify the target environment before retrying — a partial deployment may need its backup restored.",
        );
        push_str(&mut steps, "Retry the operation once the server error is resolved.");
        let d = Diagnosis {
            code: owned("creatio-server-error"),
            summary: owned("Creatio reported a server error although the tool exited successfully."),
            cause: owned(
                "Creatio answered a request with HTTP 500. The tool printed the error but still ended with exit code 0, so the operation did not complete on the server.",
            ),
            steps,
        };
        assert(views(d.steps@) =~= spec_server_error().steps);
        Some(d)
    } else {
        None
    }
}

} // verus!
