//! Role-based command filtering: which requester may run which command.
//!
//! Rules live in an access file the caller reads and deserialises; the
//! decision logic here is pure. A rule item is `*` (anything), a phrase with
//! whitespace (a prefix of the whole command), or a single word (compared
//! case-insensitively against the command's first token). Deny rules beat
//! allow rules; managers are always allowed; without an explicit allow the
//! command is denied.

use vstd::prelude::*;
use crate::text::{
    eq_ignore_case, eq_ignore_case_seq, is_space, is_space_char, starts_with_seq, starts_with_str,
    str_eq, trim_start_spec,
};

verus! {

/// One role's allow and deny lists.
#[derive(Debug, Clone)]
pub struct PermRule {
    pub allow: Vec<String>,
    pub deny: Vec<String>,
}

/// The access file: requester roles, always-allowed managers, and the rules
/// of each role. A well-formed file holds a `default` role.
#[derive(Debug, Clone)]
pub struct AccessFile {
    /// Requester email to role name.
    pub emails: Vec<(String, String)>,
    /// Managers, always allowed (emails, compared case-insensitively).
    pub perm_manager: Vec<String>,
    /// Role name to its rules.
    pub perms: Vec<(String, PermRule)>,
}

impl Default for AccessFile {
    /// The file created on first use: no managers, no role assignments, and
    /// a `default` role that allows everything.
    fn default() -> (r: AccessFile)
        ensures
            r.emails@.len() == 0,
            r.perm_manager@.len() == 0,
            r.perms@.len() == 1,
            r.perms@[0].0@ == "default"@,
            r.perms@[0].1.allow@.len() == 1,
            r.perms@[0].1.allow@[0]@ == "*"@,
            r.perms@[0].1.deny@.len() == 0,
    {
        let mut allow: Vec<String> = Vec::new();
        allow.push("*".to_owned());
        let mut perms: Vec<(String, PermRule)> = Vec::new();
        perms.push(("default".to_owned(), PermRule { allow, deny: Vec::new() }));
        AccessFile { emails: Vec::new(), perm_manager: Vec::new(), perms }
    }
}

/// The length of the leading whitespace-free run of `t`.
pub open spec fn token_len(t: Seq<char>) -> int
    decreases t.len(),
{
    if t.len() == 0 || is_space_char(t[0]) {
        0
    } else {
        1 + token_len(t.drop_first())
    }
}

/// The first whitespace-separated token of `cmd`, empty where there is none
/// (what `cmd.split_whitespace().next()` yields).
pub open spec fn first_token_spec(cmd: Seq<char>) -> Seq<char> {
    trim_start_spec(cmd).take(token_len(trim_start_spec(cmd)))
}

proof fn lemma_token_len_range(t: Seq<char>, m: int)
    requires
        0 <= m <= t.len(),
        forall|k: int| 0 <= k < m ==> !is_space_char(#[trigger] t[k]),
        m == t.len() || is_space_char(t[m]),
    ensures
        token_len(t) == m,
    decreases m,
{
    if m == 0 {
    } else {
        lemma_token_len_range(t.drop_first(), m - 1);
    }
}

proof fn lemma_trim_start_at(s: Seq<char>, i: int)
    requires
        0 <= i <= s.len(),
        forall|k: int| 0 <= k < i ==> is_space_char(#[trigger] s[k]),
        i == s.len() || !is_space_char(s[i]),
    ensures
        trim_start_spec(s) == s.subrange(i, s.len() as int),
    decreases i,
{
    if i == 0 {
        assert(s.subrange(0, s.len() as int) =~= s);
    } else {
        lemma_trim_start_at(s.drop_first(), i - 1);
        assert(s.drop_first().subrange(i - 1, s.drop_first().len() as int) =~= s.subrange(
            i,
            s.len() as int,
        ));
    }
}

/// The first token of a command, verified against `first_token_spec`.
pub fn first_token(cmd: &str) -> (r: String)
    ensures
        r@ == first_token_spec(cmd@),
{
    let n = cmd.unicode_len();
    let mut i: usize = 0;
    while i < n && is_space(cmd.get_char(i))
        invariant
            0 <= i <= n,
            n == cmd@.len(),
            forall|k: int| 0 <= k < i ==> is_space_char(#[trigger] cmd@[k]),
        decreases n - i,
    {
        i = i + 1;
    }
    let mut j: usize = i;
    while j < n && !is_space(cmd.get_char(j))
        invariant
            i <= j <= n,
            n == cmd@.len(),
            forall|k: int| 0 <= k < i ==> is_space_char(#[trigger] cmd@[k]),
            i == n || !is_space_char(cmd@[i as int]),
            forall|k: int| i <= k < j ==> !is_space_char(#[trigger] cmd@[k]),
        decreases n - j,
    {
        j = j + 1;
    }
    let piece = cmd.substring_char(i, j);
    proof {
        lemma_trim_start_at(cmd@, i as int);
        let t = cmd@.subrange(i as int, n as int);
        lemma_token_len_range(t, j - i);
        assert(t.take(j - i) =~= cmd@.subrange(i as int, j as int));
    }
    piece.to_owned()
}

/// Whether one rule item covers a command: `*` covers anything; an item with
/// whitespace is a prefix of the whole command; a single word equals the
/// command's first token up to ASCII case.
pub open spec fn rule_matches(item: Seq<char>, cmd: Seq<char>) -> bool {
    if item == "*"@ {
        true
    } else if exists|k: int| 0 <= k < item.len() && is_space_char(#[trigger] item[k]) {
        starts_with_seq(cmd, item)
    } else {
        eq_ignore_case_seq(first_token_spec(cmd), item)
    }
}

/// Decide one rule item, verified against `rule_matches`.
pub fn matches_rule_item(item: &str, cmd: &str) -> (r: bool)
    ensures
        r == rule_matches(item@, cmd@),
{
    if str_eq(item, "*") {
        return true;
    }
    let n = item.unicode_len();
    let mut k: usize = 0;
    let mut has_ws = false;
    while k < n && !has_ws
        invariant
            0 <= k <= n,
            n == item@.len(),
            !has_ws ==> forall|m: int| 0 <= m < k ==> !is_space_char(#[trigger] item@[m]),
            has_ws ==> exists|m: int| 0 <= m < item@.len() && is_space_char(#[trigger] item@[m]),
        decreases n - k + (if has_ws {
            0int
        } else {
            1int
        }),
    {
        if is_space(item.get_char(k)) {
            has_ws = true;
        }
        k = k + 1;
    }
    if has_ws {
        starts_with_str(cmd, item)
    } else {
        let tok = first_token(cmd);
        eq_ignore_case(tok.as_str(), item)
    }
}

/// The role assigned to an email: the first assignment with that exact key.
pub open spec fn lookup_role(emails: Seq<(String, String)>, email: Seq<char>) -> Option<Seq<char>>
    decreases emails.len(),
{
    if emails.len() == 0 {
        None
    } else if emails[0].0@ == email {
        Some(emails[0].1@)
    } else {
        lookup_role(emails.drop_first(), email)
    }
}

proof fn lemma_lookup_role_at(emails: Seq<(String, String)>, email: Seq<char>, i: int)
    requires
        0 <= i <= emails.len(),
        forall|k: int| 0 <= k < i ==> (#[trigger] emails[k]).0@ != email,
        i == emails.len() || emails[i].0@ == email,
    ensures
        lookup_role(emails, email) == if i == emails.len() {
            None::<Seq<char>>
        } else {
            Some(emails[i].1@)
        },
    decreases i,
{
    if i == 0 {
    } else {
        lemma_lookup_role_at(emails.drop_first(), email, i - 1);
    }
}

/// The rules of a role: the first entry with that exact name.
pub open spec fn lookup_rule(perms: Seq<(String, PermRule)>, role: Seq<char>) -> Option<PermRule>
    decreases perms.len(),
{
    if perms.len() == 0 {
        None
    } else if perms[0].0@ == role {
        Some(perms[0].1)
    } else {
        lookup_rule(perms.drop_first(), role)
    }
}

proof fn lemma_lookup_rule_at(perms: Seq<(String, PermRule)>, role: Seq<char>, i: int)
    requires
        0 <= i <= perms.len(),
        forall|k: int| 0 <= k < i ==> (#[trigger] perms[k]).0@ != role,
        i == perms.len() || perms[i].0@ == role,
    ensures
        lookup_rule(perms, role) == if i == perms.len() {
            None::<PermRule>
        } else {
            Some(perms[i].1)
        },
    decreases i,
{
    if i == 0 {
    } else {
        lemma_lookup_rule_at(perms.drop_first(), role, i - 1);
    }
}

fn find_role<'a>(emails: &'a Vec<(String, String)>, email: &str) -> (r: Option<&'a String>)
    ensures
        match r {
            Some(role) => lookup_role(emails@, email@) == Some(role@),
            None => lookup_role(emails@, email@) is None,
        },
{
    let mut i: usize = 0;
    while i < emails.len()
        invariant
            0 <= i <= emails@.len(),
            forall|k: int| 0 <= k < i ==> (#[trigger] emails@[k]).0@ != email@,
        decreases emails@.len() - i,
    {
        if str_eq(emails[i].0.as_str(), email) {
            proof {
                lemma_lookup_role_at(emails@, email@, i as int);
            }
            return Some(&emails[i].1);
        }
        i = i + 1;
    }
    proof {
        lemma_lookup_role_at(emails@, email@, emails@.len() as int);
    }
    None
}

fn find_rule<'a>(perms: &'a Vec<(String, PermRule)>, role: &str) -> (r: Option<&'a PermRule>)
    ensures
        match r {
            Some(rule) => lookup_rule(perms@, role@) == Some(*rule),
            None => lookup_rule(perms@, role@) is None,
        },
{
    let mut i: usize = 0;
    while i < perms.len()
        invariant
            0 <= i <= perms@.len(),
            forall|k: int| 0 <= k < i ==> (#[trigger] perms@[k]).0@ != role@,
        decreases perms@.len() - i,
    {
        if str_eq(perms[i].0.as_str(), role) {
            proof {
                lemma_lookup_rule_at(perms@, role@, i as int);
            }
            return Some(&perms[i].1);
        }
        i = i + 1;
    }
    proof {
        lemma_lookup_rule_at(perms@, role@, perms@.len() as int);
    }
    None
}

/// Whether any item of a rule list covers the command.
pub open spec fn any_rule_matches(items: Seq<String>, cmd: Seq<char>) -> bool {
    exists|i: int| 0 <= i < items.len() && rule_matches(#[trigger] items[i]@, cmd)
}

fn any_match(items: &Vec<String>, cmd: &str) -> (r: bool)
    ensures
        r == any_rule_matches(items@, cmd@),
{
    let mut i: usize = 0;
    while i < items.len()
        invariant
            0 <= i <= items@.len(),
            forall|k: int| 0 <= k < i ==> !rule_matches(#[trigger] items@[k]@, cmd@),
        decreases items@.len() - i,
    {
        if matches_rule_item(items[i].as_str(), cmd) {
            return true;
        }
        i = i + 1;
    }
    false
}

/// Whether an email is a manager, compared case-insensitively.
pub open spec fn is_manager(af: AccessFile, email: Seq<char>) -> bool {
    exists|i: int|
        0 <= i < af.perm_manager@.len() && eq_ignore_case_seq(
            #[trigger] af.perm_manager@[i]@,
            email,
        )
}

/// The access decision: managers are always allowed; otherwise the
/// requester's role (or `default`) is looked up, falling back to the
/// `default` rules where the role has none; deny beats allow; no rules or no
/// explicit allow means denied.
pub open spec fn allowed_spec(af: AccessFile, email: Seq<char>, cmd: Seq<char>) -> bool {
    if is_manager(af, email) {
        true
    } else {
        let role = match lookup_role(af.emails@, email) {
            Some(r) => r,
            None => "default"@,
        };
        let rules = match lookup_rule(af.perms@, role) {
            Some(r) => Some(r),
            None => lookup_rule(af.perms@, "default"@),
        };
        match rules {
            None => false,
            Some(rules) => !any_rule_matches(rules.deny@, cmd) && any_rule_matches(
                rules.allow@,
                cmd,
            ),
        }
    }
}

/// Decide whether `email` may run `cmd` under this access file, verified
/// against `allowed_spec`.
pub fn is_allowed(af: &AccessFile, email: &str, cmd: &str) -> (r: bool)
    ensures
        r == allowed_spec(*af, email@, cmd@),
{
    let mut i: usize = 0;
    while i < af.perm_manager.len()
        invariant
            0 <= i <= af.perm_manager@.len(),
            forall|k: int|
                0 <= k < i ==> !eq_ignore_case_seq(#[trigger] af.perm_manager@[k]@, email@),
        decreases af.perm_manager@.len() - i,
    {
        if eq_ignore_case(af.perm_manager[i].as_str(), email) {
            return true;
        }
        i = i + 1;
    }

    let rules = match find_role(&af.emails, email) {
        Some(role) => {
            match find_rule(&af.perms, role.as_str()) {
                Some(r) => Some(r),
                None => find_rule(&af.perms, "default"),
            }
        },
        None => {
            match find_rule(&af.perms, "default") {
                Some(r) => Some(r),
                None => None,
            }
        },
    };
    let rules = match rules {
        Some(r) => r,
        None => {
            return false;
        },
    };
    if any_match(&rules.deny, cmd) {
        return false;
    }
    any_match(&rules.allow, cmd)
}

} // verus!
