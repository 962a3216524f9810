//! Validation of interaction-command requests, and assembly of the URL that
//! a request is sent to. The network transport itself lives outside the
//! library.

use vstd::prelude::*;
use crate::id::CommandId;
use crate::id::RoleId;
use crate::id::UserId;
use crate::store::IdMap;
use vstd::string::StrSliceExecFns;
use vstd::string::StringExecFns;

verus! {

/// The most commands that one guild may have.
pub const GUILD_COMMAND_LIMIT: usize = 100;

/// The most permission overwrites that one guild command may carry.
pub const GUILD_COMMAND_PERMISSION_LIMIT: usize = 10;

/// The version of the remote API that request routes address.
pub const API_VERSION: u64 = 9;

/// Why an interaction request was refused before it was sent.
#[derive(Clone, Copy, Debug, PartialEq, Eq, Structural)]
pub enum InteractionErrorType {
    /// No application ID has been configured.
    ApplicationIdNotPresent,
    /// A command's name is not within the allowed length.
    CommandNameValidationFailed,
    /// A command's description is not within the allowed length.
    CommandDescriptionValidationFailed,
    /// A required command option follows an optional one; the offending
    /// option's index is carried.
    CommandOptionsRequiredFirst { index: usize },
    /// More commands were provided than a guild may have.
    TooManyCommands,
    /// A command carries more permission overwrites than allowed.
    TooManyCommandPermissions,
}

/// An error of interaction-command validation.
#[derive(Clone, Copy, Debug, PartialEq, Eq, Structural)]
pub struct InteractionError {
    pub kind: InteractionErrorType,
}

impl InteractionError {
    /// Immutable reference to the type of error that occurred.
    pub fn kind(&self) -> (r: &InteractionErrorType)
        ensures
            r == &self.kind,
    {
        &self.kind
    }
}

/// An option of a slash command, as far as validation reads it.
pub struct CommandOption {
    pub name: String,
    pub required: bool,
}

/// Whether a command name's length is allowed: between three and thirty-two
/// characters.
pub fn command_name(value: &str) -> (r: bool)
    ensures
        r == (3 <= value@.len() <= 32),
{
    let len = value.unicode_len();
    3 <= len && len <= 32
}

/// Whether a command description's length is allowed: between one and one
/// hundred characters.
pub fn command_description(value: &str) -> (r: bool)
    ensures
        r == (1 <= value@.len() <= 100),
{
    let len = value.unicode_len();
    1 <= len && len <= 100
}

/// Whether a per-command permission overwrite count is allowed.
pub fn guild_command_permissions(count: usize) -> (r: bool)
    ensures
        r == (1 <= count <= GUILD_COMMAND_PERMISSION_LIMIT),
{
    1 <= count && count <= GUILD_COMMAND_PERMISSION_LIMIT
}

/// Validates that every required option comes before every optional one,
/// returning the index of the first required option that follows an optional
/// one otherwise.
pub fn validate_command_options(options: &Vec<CommandOption>) -> (r: Result<(), InteractionError>)
    ensures
        match r {
            Ok(()) => forall|i: int, j: int|
                0 <= j < i < options@.len() && (#[trigger] options@[i]).required ==> (
                #[trigger] options@[j]).required,
            Err(e) => {
                &&& exists|i: int|
                    0 <= i < options@.len() && (#[trigger] options@[i]).required && (exists|j: int|
                        0 <= j < i && !options@[j].required)
                &&& e.kind matches InteractionErrorType::CommandOptionsRequiredFirst { index }
                    && index < options@.len() && options@[index as int].required && (exists|j: int|
                    0 <= j < index && !options@[j].required) && (forall|k: int|
                    0 <= k < index ==> !((#[trigger] options@[k]).required && (exists|j: int|
                        0 <= j < k && !options@[j].required)))
            },
        },
{
    let mut optional_option_added = false;
    let n = options.len();
    for idx in 0..n
        invariant
            n == options@.len(),
            optional_option_added == exists|j: int| 0 <= j < idx && !options@[j].required,
            forall|k: int|
                0 <= k < idx ==> !((#[trigger] options@[k]).required && (exists|j: int|
                    0 <= j < k && !options@[j].required)),
    {
        let option = &options[idx];
        if !optional_option_added && !option.required {
            optional_option_added = true;
            proof {
                assert(!options@[idx as int].required);
            }
        } else if option.required && optional_option_added {
            proof {
                assert(options@[idx as int].required);
            }
            return Err(
                InteractionError {
                    kind: InteractionErrorType::CommandOptionsRequiredFirst { index: idx },
                },
            );
        }
        proof {
            if !options@[idx as int].required {
                assert(exists|j: int| 0 <= j <= idx && !options@[j].required);
            }
        }
    }
    proof {
        assert forall|i: int, j: int|
            0 <= j < i < options@.len() && (#[trigger] options@[i]).required implies (
        #[trigger] options@[j]).required by {
            if !options@[j].required {
                assert(options@[i].required && (exists|j2: int|
                    0 <= j2 < i && !options@[j2].required));
            }
        }
    }
    Ok(())
}

/// The URL that a request route is sent to: the scheme follows the transport,
/// the host is the configured proxy or the remote service, and the path
/// names the API version and the route.
pub fn request_url(use_http: bool, proxy: Option<&str>, route: &str) -> (r: String)
    ensures
        r@ == (if use_http {
            "http://"@
        } else {
            "https://"@
        }) + (match proxy {
            Some(p) => p@,
            None => "discord.com"@,
        }) + "/api/v9/"@ + route@,
{
    let mut out = String::new();
    if use_http {
        out.append("http://");
    } else {
        out.append("https://");
    }
    match proxy {
        Some(p) => out.append(p),
        None => out.append("discord.com"),
    }
    out.append("/api/v9/");
    out.append(route);
    out
}


/// Whom a command permission overwrite applies to.
#[derive(Clone, Copy, Debug, PartialEq, Eq, Structural)]
pub enum CommandPermissionsType {
    Role(RoleId),
    User(UserId),
}

/// A permission overwrite of a guild command.
#[derive(Clone, Copy, Debug, PartialEq, Eq, Structural)]
pub struct CommandPermissions {
    pub id: CommandPermissionsType,
    pub permission: bool,
}

/// How many of the first `n` elements equal `d`.
pub open spec fn count_in(s: Seq<u64>, n: int, d: u64) -> int
    decreases n,
{
    if n <= 0 {
        0
    } else {
        count_in(s, n - 1, d) + (if s[n - 1] == d {
            1int
        } else {
            0int
        })
    }
}

/// Whether the element at position `i` breaks a limit as a scan reaches it:
/// either its command's running permission count passes the per-command cap,
/// or it introduces a new command past the command cap.
pub open spec fn permission_violation(s: Seq<u64>, i: int) -> bool {
    ||| count_in(s, i + 1, s[i]) > GUILD_COMMAND_PERMISSION_LIMIT as int
    ||| (!s.take(i).to_set().contains(s[i]) && s.take(i).to_set().len()
        >= GUILD_COMMAND_LIMIT as int)
}

/// The first position that breaks a limit; meaningful only when one exists.
pub open spec fn first_permission_violation(s: Seq<u64>) -> int {
    choose|i: int|
        0 <= i < s.len() && permission_violation(s, i) && (forall|k: int|
            0 <= k < i ==> !permission_violation(s, k))
}

proof fn lemma_violation_min_witness(s: Seq<u64>, k: int)
    requires
        0 <= k < s.len(),
        permission_violation(s, k),
    ensures
        exists|i: int|
            0 <= i < s.len() && permission_violation(s, i) && (forall|k2: int|
                0 <= k2 < i ==> !permission_violation(s, k2)),
    decreases k,
{
    if forall|k2: int| 0 <= k2 < k ==> !permission_violation(s, k2) {
    } else {
        let j = choose|j: int| 0 <= j < k && permission_violation(s, j);
        lemma_violation_min_witness(s, j);
    }
}

/// When some position breaks a limit, `first_permission_violation` is the
/// first one.
pub proof fn lemma_first_permission_violation(s: Seq<u64>)
    requires
        exists|i: int| 0 <= i < s.len() && permission_violation(s, i),
    ensures
        0 <= first_permission_violation(s) < s.len(),
        permission_violation(s, first_permission_violation(s)),
        forall|k: int| 0 <= k < first_permission_violation(s) ==> !permission_violation(s, k),
{
    let k = choose|i: int| 0 <= i < s.len() && permission_violation(s, i);
    lemma_violation_min_witness(s, k);
}

/// The command ids of a permission list.
pub open spec fn permission_ids(s: Seq<(CommandId, CommandPermissions)>) -> Seq<u64> {
    s.map_values(|p: (CommandId, CommandPermissions)| p.0@)
}

/// Validates a guild's full command-permission list: each command may carry
/// at most ten permission overwrites, and at most one hundred distinct
/// commands may appear. The first limit a left-to-right scan breaks decides
/// the error.
pub fn validate_command_permissions(
    permissions: &[(CommandId, CommandPermissions)],
) -> (r: Result<(), InteractionError>)
    ensures
        ({
            let ids = permission_ids(permissions@);
            match r {
                Ok(()) => forall|i: int| 0 <= i < ids.len() ==> !permission_violation(ids, i),
                Err(e) => {
                    &&& exists|i: int| 0 <= i < ids.len() && permission_violation(ids, i)
                    &&& e.kind == (if count_in(
                        ids,
                        first_permission_violation(ids) + 1,
                        ids[first_permission_violation(ids)],
                    ) > GUILD_COMMAND_PERMISSION_LIMIT as int {
                        InteractionErrorType::TooManyCommandPermissions
                    } else {
                        InteractionErrorType::TooManyCommands
                    })
                },
            }
        }),
{
    let ghost ids = permission_ids(permissions@);
    let mut counts: IdMap<usize> = IdMap::new();
    let n = permissions.len();
    proof {
        assert(ids.take(0).to_set() =~= Set::<u64>::empty());
    }
    for i in 0..n
        invariant
            n == permissions@.len(),
            ids == permission_ids(permissions@),
            ids.len() == n,
            counts.wf(),
            counts@.dom() == ids.take(i as int).to_set(),
            forall|d: u64| #[trigger]
                counts@.dom().contains(d) ==> counts@[d] == count_in(ids, i as int, d)
                    && counts@[d] <= GUILD_COMMAND_PERMISSION_LIMIT,
            forall|k: int| 0 <= k < i ==> !permission_violation(ids, k),
    {
        let d = permissions[i].0.get();
        proof {
            assert(ids[i as int] == d);
            crate::index::lemma_take_to_set_step(ids, i as int);
            assert forall|d2: u64| d2 != d implies count_in(ids, i + 1, d2) == count_in(
                ids,
                i as int,
                d2,
            ) by {}
            assert(count_in(ids, i + 1, d) == count_in(ids, i as int, d) + 1);
        }
        match counts.get(d) {
            Some(c_ref) => {
                let c = *c_ref;
                proof {
                    assert(count_in(ids, i as int, d) == c);
                }
                if c + 1 > GUILD_COMMAND_PERMISSION_LIMIT {
                    proof {
                        assert(permission_violation(ids, i as int));
                        lemma_first_permission_violation(ids);
                        let f = first_permission_violation(ids);
                        if f < i as int {
                            assert(!permission_violation(ids, f));
                        }
                        assert(f == i as int);
                    }
                    return Err(
                        InteractionError { kind: InteractionErrorType::TooManyCommandPermissions },
                    );
                }
                counts.insert(d, c + 1);
                proof {
                    assert(counts@.dom() =~= ids.take(i + 1).to_set());
                    assert(!permission_violation(ids, i as int));
                }
            },
            None => {
                proof {
                    assert(!ids.take(i as int).to_set().contains(d));
                }
                let distinct = counts.len();
                proof {
                    assert(distinct == ids.take(i as int).to_set().len());
                }
                if distinct >= GUILD_COMMAND_LIMIT {
                    proof {
                        assert(permission_violation(ids, i as int));
                        lemma_first_permission_violation(ids);
                        let f = first_permission_violation(ids);
                        if f < i as int {
                            assert(!permission_violation(ids, f));
                        }
                        assert(f == i as int);
                        assert(count_in(ids, i as int, d) == 0) by {
                            lemma_count_in_absent(ids, i as int, d);
                        }
                        assert(count_in(ids, f + 1, ids[f]) == 1);
                    }
                    return Err(InteractionError { kind: InteractionErrorType::TooManyCommands });
                }
                counts.insert(d, 1);
                proof {
                    assert(counts@.dom() =~= ids.take(i + 1).to_set());
                    assert(count_in(ids, i as int, d) == 0) by {
                        lemma_count_in_absent(ids, i as int, d);
                    }
                    assert(!permission_violation(ids, i as int));
                }
            },
        }
    }
    proof {
        assert(ids.take(n as int) =~= ids);
    }
    Ok(())
}

/// An id outside the first `n` elements has a running count of zero.
proof fn lemma_count_in_absent(s: Seq<u64>, n: int, d: u64)
    requires
        0 <= n <= s.len(),
        !s.take(n).to_set().contains(d),
    ensures
        count_in(s, n, d) == 0,
    decreases n,
{
    if n > 0 {
        assert(s.take(n)[n - 1] == s[n - 1]);
        assert(s[n - 1] != d);
        assert forall|j: int| 0 <= j < n - 1 implies (#[trigger] s.take(n - 1)[j]) != d by {
            assert(s.take(n)[j] == s.take(n - 1)[j]);
        }
        assert(!s.take(n - 1).to_set().contains(d));
        lemma_count_in_absent(s, n - 1, d);
    }
}

} // verus!
