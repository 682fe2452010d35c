//! Rewriting of mentions in generated text, so that it notifies nobody.
//!
//! Role mentions and user mentions are replaced by names; the keywords that
//! would notify many members at once are broken up by a zero-width space.

use vstd::prelude::*;
use crate::matcher::{first_groups, regex_first_groups, regex_split, split_text};
use crate::text::{parse_id, parse_id_spec};

verus! {

/// A name known for an identifier.
pub struct NameEntry {
    pub id: u64,
    pub name: String,
}

/// A member of a guild, as far as naming goes.
pub struct Member {
    pub id: u64,
    /// The name chosen for this guild, if any.
    pub nick: Option<String>,
    /// The name used everywhere else.
    pub name: String,
}

/// The pattern of a user mention; its group holds the identifier.
pub open spec fn user_pattern() -> Seq<char> {
    "<@!?(\\d+)>"@
}

/// The pattern of a role mention; its group holds the identifier.
pub open spec fn role_pattern() -> Seq<char> {
    "<@&(\\d+)>"@
}

/// What stands in for the name of a user that cannot be found.
pub open spec fn invalid_username() -> Seq<char> {
    "INVALID-USERNAME"@
}

/// What stands in for the name of a role that cannot be found.
pub open spec fn invalid_role() -> Seq<char> {
    "INVALID-ROLE"@
}

/// The name by which a member is shown: the guild's own where there is one.
pub open spec fn display_name_spec(member: Member) -> Seq<char> {
    match member.nick {
        Some(nick) => nick@,
        None => member.name@,
    }
}

/// The name of the first entry for `id`.
pub open spec fn lookup_name(table: Seq<NameEntry>, id: u64) -> Option<Seq<char>>
    decreases table.len(),
{
    if table.len() == 0 {
        None
    } else if table[0].id == id {
        Some(table[0].name@)
    } else {
        lookup_name(table.drop_first(), id)
    }
}

/// The display name of the first member with identifier `id`.
pub open spec fn lookup_member(members: Seq<Member>, id: u64) -> Option<Seq<char>>
    decreases members.len(),
{
    if members.len() == 0 {
        None
    } else if members[0].id == id {
        Some(display_name_spec(members[0]))
    } else {
        lookup_member(members.drop_first(), id)
    }
}

pub open spec fn username_spec(members: Seq<Member>, id: u64) -> Seq<char> {
    match lookup_member(members, id) {
        Some(name) => name,
        None => invalid_username(),
    }
}

pub open spec fn role_name_spec(roles: Seq<NameEntry>, id: u64) -> Seq<char> {
    match lookup_name(roles, id) {
        Some(name) => name,
        None => invalid_role(),
    }
}

/// The identifier that a matched group denotes.
pub open spec fn group_id(group: Option<Seq<char>>) -> u64 {
    match group {
        Some(digits) => parse_id_spec(digits),
        None => 0,
    }
}

/// The identifiers that the matched groups denote, in order.
pub open spec fn group_ids(groups: Seq<Option<Seq<char>>>) -> Seq<u64> {
    Seq::new(groups.len(), |i: int| group_id(groups[i]))
}

/// The names of the users `ids`, in order.
pub open spec fn user_names(members: Seq<Member>, ids: Seq<u64>) -> Seq<Seq<char>> {
    Seq::new(ids.len(), |i: int| username_spec(members, ids[i]))
}

/// The names of the roles `ids`, in order.
pub open spec fn role_names(roles: Seq<NameEntry>, ids: Seq<u64>) -> Seq<Seq<char>> {
    Seq::new(ids.len(), |i: int| role_name_spec(roles, ids[i]))
}

/// The text made of `pieces[0]`, then for each `i < count` the name
/// `names[i]` behind an `@`, followed by `pieces[i + 1]`.
pub open spec fn weave(pieces: Seq<Seq<char>>, names: Seq<Seq<char>>, count: nat) -> Seq<char>
    decreases count,
{
    if count == 0 {
        pieces[0]
    } else {
        weave(pieces, names, (count - 1) as nat) + seq!['@'] + names[count - 1]
            + pieces[count as int]
    }
}

/// The text with every match replaced by `@` and a name, given the pieces
/// between the matches and the name for each match. `None` where the two do
/// not belong together.
pub open spec fn rewrite_spec(pieces: Seq<Seq<char>>, names: Seq<Seq<char>>) -> Option<
    Seq<char>,
> {
    if pieces.len() == names.len() + 1 {
        Some(weave(pieces, names, names.len()))
    } else {
        None
    }
}

/// The text with every user mention replaced by `@` and the user's name;
/// `None` where the matcher gave no usable answer.
pub open spec fn remove_user_pings_spec(message: Seq<char>, members: Seq<Member>) -> Option<
    Seq<char>,
> {
    match (regex_split(user_pattern(), message), regex_first_groups(user_pattern(), message)) {
        (Some(pieces), Some(groups)) => rewrite_spec(
            pieces,
            user_names(members, group_ids(groups)),
        ),
        _ => None,
    }
}

/// The text with every role mention replaced by `@` and the role's name;
/// `None` where the matcher gave no usable answer.
pub open spec fn remove_role_pings_spec(message: Seq<char>, roles: Seq<NameEntry>) -> Option<
    Seq<char>,
> {
    match (regex_split(role_pattern(), message), regex_first_groups(role_pattern(), message)) {
        (Some(pieces), Some(groups)) => rewrite_spec(
            pieces,
            role_names(roles, group_ids(groups)),
        ),
        _ => None,
    }
}

/// The identifiers of the mentions that match `pattern`, in order.
pub open spec fn ping_ids_spec(pattern: Seq<char>, message: Seq<char>) -> Option<Seq<u64>> {
    match regex_first_groups(pattern, message) {
        Some(groups) => Some(group_ids(groups)),
        None => None,
    }
}

/// `text` with every occurrence of `from` replaced by `to`, taken from left
/// to right without overlap.
pub open spec fn replace_all(text: Seq<char>, from: Seq<char>, to: Seq<char>) -> Seq<char>
    decreases text.len(),
{
    if from.len() == 0 || text.len() < from.len() {
        text
    } else if text.subrange(0, from.len() as int) == from {
        to + replace_all(text.subrange(from.len() as int, text.len() as int), from, to)
    } else {
        seq![text[0]] + replace_all(text.subrange(1, text.len() as int), from, to)
    }
}

/// The text with the three keywords that notify many members broken up.
pub open spec fn remove_special_pings_spec(message: Seq<char>) -> Seq<char> {
    replace_all(
        replace_all(
            replace_all(message, "@someone"@, "@\u{200B}someone"@),
            "@everyone"@,
            "@\u{200B}everyone"@,
        ),
        "@here"@,
        "@\u{200B}here"@,
    )
}

/// All three passes: roles, then users, then the keywords. `None` where the
/// matcher gave no usable answer.
pub open spec fn remove_pings_spec(
    message: Seq<char>,
    roles: Seq<NameEntry>,
    members: Seq<Member>,
) -> Option<Seq<char>> {
    match remove_role_pings_spec(message, roles) {
        Some(without_roles) => match remove_user_pings_spec(without_roles, members) {
            Some(without_users) => Some(remove_special_pings_spec(without_users)),
            None => None,
        },
        None => None,
    }
}

/// The identifiers of `ids` without repetition, each where it first stood.
pub open spec fn distinct(ids: Seq<u64>) -> Seq<u64>
    decreases ids.len(),
{
    if ids.len() == 0 {
        Seq::empty()
    } else if distinct(ids.drop_last()).contains(ids.last()) {
        distinct(ids.drop_last())
    } else {
        distinct(ids.drop_last()).push(ids.last())
    }
}

/// The name by which a member is shown.
pub fn display_name(member: &Member) -> (r: String)
    ensures
        r@ == display_name_spec(*member),
{
    match &member.nick {
        Some(nick) => nick.clone(),
        None => member.name.clone(),
    }
}

/// The display name of the member `user_id`, or the stand-in where the guild
/// has no such member.
pub fn get_username(members: &Vec<Member>, user_id: u64) -> (r: String)
    ensures
        r@ == username_spec(members@, user_id),
{
    let mut i: usize = 0;
    assert(members@.subrange(0, members.len() as int) =~= members@);
    while i < members.len()
        invariant
            i <= members.len(),
            lookup_member(members@, user_id) == lookup_member(
                members@.subrange(i as int, members.len() as int),
                user_id,
            ),
        decreases members.len() - i,
    {
        let ghost rest = members@.subrange(i as int, members.len() as int);
        assert(rest[0] == members@[i as int]);
        assert(rest.drop_first() =~= members@.subrange(i + 1, members.len() as int));
        if members[i].id == user_id {
            return display_name(&members[i]);
        }
        i = i + 1;
    }
    String::from_str("INVALID-USERNAME")
}

/// The name of the role `role_id`, or the stand-in where the guild has no
/// such role.
pub fn get_role_name(roles: &Vec<NameEntry>, role_id: u64) -> (r: String)
    ensures
        r@ == role_name_spec(roles@, role_id),
{
    let mut i: usize = 0;
    assert(roles@.subrange(0, roles.len() as int) =~= roles@);
    while i < roles.len()
        invariant
            i <= roles.len(),
            lookup_name(roles@, role_id) == lookup_name(
                roles@.subrange(i as int, roles.len() as int),
                role_id,
            ),
        decreases roles.len() - i,
    {
        let ghost rest = roles@.subrange(i as int, roles.len() as int);
        assert(rest[0] == roles@[i as int]);
        assert(rest.drop_first() =~= roles@.subrange(i + 1, roles.len() as int));
        if roles[i].id == role_id {
            return roles[i].name.clone();
        }
        i = i + 1;
    }
    String::from_str("INVALID-ROLE")
}

/// The user identifier that a piece of text denotes; `0` where it denotes
/// none.
pub fn str_to_user_id(text: &str) -> (r: u64)
    ensures
        r == parse_id_spec(text@),
{
    parse_id(text)
}

/// The role identifier that a piece of text denotes; `0` where it denotes
/// none.
pub fn str_to_role_id(text: &str) -> (r: u64)
    ensures
        r == parse_id_spec(text@),
{
    parse_id(text)
}

/// The identifiers that the matched groups denote, in order.
pub fn ids_of_groups(groups: &Vec<Option<String>>) -> (r: Vec<u64>)
    ensures
        r@ == group_ids(groups.deep_view()),
{
    let mut ids: Vec<u64> = Vec::new();
    let mut i: usize = 0;
    while i < groups.len()
        invariant
            i <= groups.len(),
            ids@.len() == i,
            forall|j: int| 0 <= j < i ==> ids@[j] == group_id(#[trigger] groups.deep_view()[j]),
        decreases groups.len() - i,
    {
        assert(groups.deep_view()[i as int] == groups@[i as int].deep_view());
        let id: u64 = match &groups[i] {
            Some(digits) => parse_id(digits.as_str()),
            None => 0,
        };
        ids.push(id);
        i = i + 1;
    }
    assert(ids@ =~= group_ids(groups.deep_view()));
    ids
}

/// The identifiers of `ids` without repetition, each where it first stood:
/// what has to be looked up to name every mention of a text.
pub fn distinct_ids(ids: &Vec<u64>) -> (r: Vec<u64>)
    ensures
        r@ == distinct(ids@),
{
    let mut out: Vec<u64> = Vec::new();
    let mut i: usize = 0;
    assert(ids@.subrange(0, 0) =~= Seq::<u64>::empty());
    while i < ids.len()
        invariant
            i <= ids.len(),
            out@ == distinct(ids@.subrange(0, i as int)),
        decreases ids.len() - i,
    {
        let id: u64 = ids[i];
        let mut seen = false;
        let mut j: usize = 0;
        while j < out.len()
            invariant
                j <= out.len(),
                seen == out@.subrange(0, j as int).contains(id),
            decreases out.len() - j,
        {
            if out[j] == id {
                seen = true;
            }
            assert(out@.subrange(0, j + 1) =~= out@.subrange(0, j as int).push(out@[j as int]));
            proof {
                let shorter = out@.subrange(0, j as int);
                let longer = out@.subrange(0, j + 1);
                if shorter.contains(id) {
                    let at = choose|at: int| 0 <= at < shorter.len() && shorter[at] == id;
                    assert(longer[at] == id);
                }
                if out@[j as int] == id {
                    assert(longer[j as int] == id);
                }
            }
            j = j + 1;
        }
        assert(out@.subrange(0, out.len() as int) =~= out@);
        let ghost upto = ids@.subrange(0, i + 1);
        assert(upto.drop_last() =~= ids@.subrange(0, i as int));
        assert(upto.last() == id);
        if !seen {
            out.push(id);
        }
        i = i + 1;
    }
    assert(ids@.subrange(0, ids.len() as int) =~= ids@);
    out
}

/// The names of the users `ids`, in order.
pub fn usernames(members: &Vec<Member>, ids: &Vec<u64>) -> (r: Vec<String>)
    ensures
        r.deep_view() == user_names(members@, ids@),
{
    let mut names: Vec<String> = Vec::new();
    let mut i: usize = 0;
    while i < ids.len()
        invariant
            i <= ids.len(),
            names@.len() == i,
            forall|j: int| 0 <= j < i ==> (#[trigger] names@[j])@ == username_spec(members@, ids@[j]),
        decreases ids.len() - i,
    {
        let name = get_username(members, ids[i]);
        names.push(name);
        i = i + 1;
    }
    assert(names.deep_view() =~= user_names(members@, ids@));
    names
}

/// The names of the roles `ids`, in order.
pub fn rolenames(roles: &Vec<NameEntry>, ids: &Vec<u64>) -> (r: Vec<String>)
    ensures
        r.deep_view() == role_names(roles@, ids@),
{
    let mut names: Vec<String> = Vec::new();
    let mut i: usize = 0;
    while i < ids.len()
        invariant
            i <= ids.len(),
            names@.len() == i,
            forall|j: int| 0 <= j < i ==> (#[trigger] names@[j])@ == role_name_spec(roles@, ids@[j]),
        decreases ids.len() - i,
    {
        let name = get_role_name(roles, ids[i]);
        names.push(name);
        i = i + 1;
    }
    assert(names.deep_view() =~= role_names(roles@, ids@));
    names
}

/// Puts a text together again from the pieces between its matches, with `@`
/// and a name in place of each match. `None` unless there is exactly one
/// piece more than there are names.
pub fn rewrite(pieces: &Vec<String>, names: &Vec<String>) -> (r: Option<String>)
    ensures
        r.deep_view() == rewrite_spec(pieces.deep_view(), names.deep_view()),
{
    assert(pieces.deep_view().len() == pieces@.len());
    assert(names.deep_view().len() == names@.len());
    let piece_count: usize = pieces.len();
    let name_count: usize = names.len();
    if name_count == usize::MAX || piece_count != name_count + 1 {
        return None;
    }
    let mut out = pieces[0].clone();
    let mut i: usize = 0;
    assert(pieces.deep_view()[0] == pieces@[0]@);
    while i < names.len()
        invariant
            i <= names.len(),
            pieces.len() == names.len() + 1,
            out@ == weave(pieces.deep_view(), names.deep_view(), i as nat),
        decreases names.len() - i,
    {
        assert(names.deep_view()[i as int] == names@[i as int]@);
        assert(pieces.deep_view()[i + 1] == pieces@[i + 1]@);
        proof {
            reveal_strlit("@");
            assert("@"@ =~= seq!['@']);
        }
        out.append("@");
        out.append(names[i].as_str());
        out.append(pieces[i + 1].as_str());
        i = i + 1;
    }
    Some(out)
}

/// The second half of `remove_user_pings`: from what the matcher found to
/// the rewritten text.
pub fn rewrite_user_pings(
    pieces: &Vec<String>,
    groups: &Vec<Option<String>>,
    members: &Vec<Member>,
) -> (r: Option<String>)
    ensures
        r.deep_view() == rewrite_spec(
            pieces.deep_view(),
            user_names(members@, group_ids(groups.deep_view())),
        ),
{
    let ids = ids_of_groups(groups);
    let names = usernames(members, &ids);
    rewrite(pieces, &names)
}

/// The second half of `remove_role_pings`: from what the matcher found to
/// the rewritten text.
pub fn rewrite_role_pings(
    pieces: &Vec<String>,
    groups: &Vec<Option<String>>,
    roles: &Vec<NameEntry>,
) -> (r: Option<String>)
    ensures
        r.deep_view() == rewrite_spec(
            pieces.deep_view(),
            role_names(roles@, group_ids(groups.deep_view())),
        ),
{
    let ids = ids_of_groups(groups);
    let names = rolenames(roles, &ids);
    rewrite(pieces, &names)
}

/// The identifiers of the users that `message` mentions, in order and with
/// repetitions; `None` where the matcher refuses the pattern.
pub fn user_ping_ids(message: &str) -> (r: Option<Vec<u64>>)
    ensures
        r.deep_view() == ping_ids_spec(user_pattern(), message@),
{
    match first_groups("<@!?(\\d+)>", message) {
        Some(groups) => {
            let ids = ids_of_groups(&groups);
            assert(ids.deep_view() =~= ids@);
            Some(ids)
        },
        None => None,
    }
}

/// The identifiers of the roles that `message` mentions, in order and with
/// repetitions; `None` where the matcher refuses the pattern.
pub fn role_ping_ids(message: &str) -> (r: Option<Vec<u64>>)
    ensures
        r.deep_view() == ping_ids_spec(role_pattern(), message@),
{
    match first_groups("<@&(\\d+)>", message) {
        Some(groups) => {
            let ids = ids_of_groups(&groups);
            assert(ids.deep_view() =~= ids@);
            Some(ids)
        },
        None => None,
    }
}

/// Replaces every user mention in `message` by `@` and the name of the user,
/// taken from `members`, or the stand-in for a user that is not among them.
pub fn remove_user_pings(message: &str, members: &Vec<Member>) -> (r: Option<String>)
    ensures
        r.deep_view() == remove_user_pings_spec(message@, members@),
{
    let pieces = split_text("<@!?(\\d+)>", message);
    let groups = first_groups("<@!?(\\d+)>", message);
    match (pieces, groups) {
        (Some(pieces), Some(groups)) => rewrite_user_pings(&pieces, &groups, members),
        _ => None,
    }
}

/// Replaces every role mention in `message` by `@` and the name of the role,
/// taken from `roles`, or the stand-in for a role that is not among them.
pub fn remove_role_pings(message: &str, roles: &Vec<NameEntry>) -> (r: Option<String>)
    ensures
        r.deep_view() == remove_role_pings_spec(message@, roles@),
{
    let pieces = split_text("<@&(\\d+)>", message);
    let groups = first_groups("<@&(\\d+)>", message);
    match (pieces, groups) {
        (Some(pieces), Some(groups)) => rewrite_role_pings(&pieces, &groups, roles),
        _ => None,
    }
}

fn matches_at(text: &str, at: usize, len: usize, word: &str, word_len: usize) -> (r: bool)
    requires
        len == text@.len(),
        word_len == word@.len(),
        at + word_len <= len,
    ensures
        r == (text@.subrange(at as int, at + word_len) == word@),
{
    let mut j: usize = 0;
    while j < word_len
        invariant
            j <= word_len,
            len == text@.len(),
            word_len == word@.len(),
            at + word_len <= len,
            text@.subrange(at as int, at + j) == word@.subrange(0, j as int),
        decreases word_len - j,
    {
        if text.get_char(at + j) != word.get_char(j) {
            assert(text@.subrange(at as int, at + word_len)[j as int] != word@[j as int]);
            return false;
        }
        assert(text@.subrange(at as int, at + j + 1) =~= text@.subrange(at as int, at + j).push(
            text@[at + j],
        ));
        assert(word@.subrange(0, j + 1) =~= word@.subrange(0, j as int).push(word@[j as int]));
        j = j + 1;
    }
    assert(word@.subrange(0, word_len as int) =~= word@);
    true
}

/// Replaces every occurrence of `from` in `text` by `to`, from left to right
/// and without overlap.
pub fn replace_text(text: &str, from: &str, to: &str) -> (r: String)
    ensures
        r@ == replace_all(text@, from@, to@),
{
    let n: usize = text.unicode_len();
    let k: usize = from.unicode_len();
    if k == 0 || n < k {
        return String::from_str(text);
    }
    let mut out = String::new();
    let mut i: usize = 0;
    assert(text@.subrange(0, n as int) =~= text@);
    while i <= n - k
        invariant
            0 < k <= n,
            i <= n,
            n == text@.len(),
            k == from@.len(),
            replace_all(text@, from@, to@) == out@ + replace_all(
                text@.subrange(i as int, n as int),
                from@,
                to@,
            ),
        decreases n - i,
    {
        let ghost rest = text@.subrange(i as int, n as int);
        assert(rest.subrange(0, k as int) =~= text@.subrange(i as int, i + k));
        if matches_at(text, i, n, from, k) {
            assert(rest.subrange(k as int, rest.len() as int) =~= text@.subrange(i + k, n as int));
            assert((out@ + to@) + replace_all(text@.subrange(i + k, n as int), from@, to@) =~= out@
                + (to@ + replace_all(text@.subrange(i + k, n as int), from@, to@)));
            out.append(to);
            i = i + k;
        } else {
            assert(rest.subrange(1, rest.len() as int) =~= text@.subrange(i + 1, n as int));
            assert(text@.subrange(i as int, i + 1) =~= seq![rest[0]]);
            assert((out@ + seq![rest[0]]) + replace_all(text@.subrange(i + 1, n as int), from@, to@)
                =~= out@ + (seq![rest[0]] + replace_all(
                text@.subrange(i + 1, n as int),
                from@,
                to@,
            )));
            out.append(text.substring_char(i, i + 1));
            i = i + 1;
        }
    }
    out.append(text.substring_char(i, n));
    out
}

/// Breaks up the keywords that notify many members at once, by a zero-width
/// space behind the `@`: the text reads as before and notifies nobody.
pub fn remove_special_pings(message: &str) -> (r: String)
    ensures
        r@ == remove_special_pings_spec(message@),
{
    let first = replace_text(message, "@someone", "@\u{200B}someone");
    let second = replace_text(first.as_str(), "@everyone", "@\u{200B}everyone");
    replace_text(second.as_str(), "@here", "@\u{200B}here")
}

/// Makes generated text safe to send: role mentions become role names, user
/// mentions become user names, and the keywords that notify many members are
/// broken up. `None` where the matcher gave no usable answer.
pub fn remove_pings(message: &str, roles: &Vec<NameEntry>, members: &Vec<Member>) -> (r: Option<
    String,
>)
    ensures
        r.deep_view() == remove_pings_spec(message@, roles@, members@),
{
    match remove_role_pings(message, roles) {
        Some(without_roles) => match remove_user_pings(without_roles.as_str(), members) {
            Some(without_users) => Some(remove_special_pings(without_users.as_str())),
            None => None,
        },
        None => None,
    }
}

/// A user that is among the members goes by the display name of the first
/// member with that identifier.
pub proof fn lemma_known_user(members: Seq<Member>, at: int)
    requires
        0 <= at < members.len(),
        forall|j: int| 0 <= j < at ==> (#[trigger] members[j]).id != members[at].id,
    ensures
        username_spec(members, members[at].id) == display_name_spec(members[at]),
    decreases at,
{
    if at > 0 {
        let rest = members.drop_first();
        assert(members[0].id != members[at].id);
        assert(rest[at - 1] == members[at]);
        assert forall|j: int| 0 <= j < at - 1 implies (#[trigger] rest[j]).id != rest[at - 1].id by {
            assert(rest[j] == members[j + 1]);
        }
        lemma_known_user(rest, at - 1);
    }
}

/// A user that is not among the members goes by the stand-in.
pub proof fn lemma_unknown_user(members: Seq<Member>, id: u64)
    requires
        forall|j: int| 0 <= j < members.len() ==> (#[trigger] members[j]).id != id,
    ensures
        username_spec(members, id) == invalid_username(),
    decreases members.len(),
{
    if members.len() > 0 {
        let rest = members.drop_first();
        assert(members[0].id != id);
        assert forall|j: int| 0 <= j < rest.len() implies (#[trigger] rest[j]).id != id by {
            assert(rest[j] == members[j + 1]);
        }
        lemma_unknown_user(rest, id);
    }
}

/// A role that the guild has goes by the name of the first role with that
/// identifier.
pub proof fn lemma_known_role(roles: Seq<NameEntry>, at: int)
    requires
        0 <= at < roles.len(),
        forall|j: int| 0 <= j < at ==> (#[trigger] roles[j]).id != roles[at].id,
    ensures
        role_name_spec(roles, roles[at].id) == roles[at].name@,
    decreases at,
{
    if at > 0 {
        let rest = roles.drop_first();
        assert(roles[0].id != roles[at].id);
        assert(rest[at - 1] == roles[at]);
        assert forall|j: int| 0 <= j < at - 1 implies (#[trigger] rest[j]).id != rest[at - 1].id by {
            assert(rest[j] == roles[j + 1]);
        }
        lemma_known_role(rest, at - 1);
    }
}

/// A role that the guild does not have goes by the stand-in.
pub proof fn lemma_unknown_role(roles: Seq<NameEntry>, id: u64)
    requires
        forall|j: int| 0 <= j < roles.len() ==> (#[trigger] roles[j]).id != id,
    ensures
        role_name_spec(roles, id) == invalid_role(),
    decreases roles.len(),
{
    if roles.len() > 0 {
        let rest = roles.drop_first();
        assert(roles[0].id != id);
        assert forall|j: int| 0 <= j < rest.len() implies (#[trigger] rest[j]).id != id by {
            assert(rest[j] == roles[j + 1]);
        }
        lemma_unknown_role(rest, id);
    }
}

/// A text in which the matcher found nothing is kept as it is.
pub proof fn lemma_nothing_to_rewrite(text: Seq<char>)
    ensures
        rewrite_spec(seq![text], Seq::empty()) == Some(text),
{
}

/// A text with one mention is rewritten to what stood before the mention,
/// an `@`, the name, and what stood behind the mention.
pub proof fn lemma_one_mention(before: Seq<char>, name: Seq<char>, after: Seq<char>)
    ensures
        rewrite_spec(seq![before, after], seq![name]) == Some(
            before + seq!['@'] + name + after,
        ),
{
    let pieces = seq![before, after];
    let names = seq![name];
    assert(weave(pieces, names, 0) == before);
    assert(weave(pieces, names, 1) == weave(pieces, names, 0) + seq!['@'] + names[0] + pieces[1]);
}

/// Taking the repetitions out of a list of identifiers leaves every
/// identifier of the list, once.
pub proof fn lemma_distinct(ids: Seq<u64>)
    ensures
        distinct(ids).no_duplicates(),
        forall|id: u64| distinct(ids).contains(id) <==> ids.contains(id),
    decreases ids.len(),
{
    if ids.len() > 0 {
        let shorter = ids.drop_last();
        let kept = distinct(shorter);
        lemma_distinct(shorter);
        assert forall|id: u64| distinct(ids).contains(id) <==> ids.contains(id) by {
            if ids.contains(id) {
                let at = choose|at: int| 0 <= at < ids.len() && ids[at] == id;
                if at < ids.len() - 1 {
                    assert(shorter[at] == id);
                    assert(shorter.contains(id));
                    assert(kept.contains(id));
                    let found = choose|found: int| 0 <= found < kept.len() && kept[found] == id;
                    assert(distinct(ids)[found] == id);
                } else if !kept.contains(id) {
                    assert(distinct(ids)[kept.len() as int] == id);
                }
            }
            if distinct(ids).contains(id) {
                let at = choose|at: int| 0 <= at < distinct(ids).len() && distinct(ids)[at] == id;
                if at < kept.len() {
                    assert(kept[at] == id);
                    assert(kept.contains(id));
                    assert(shorter.contains(id));
                    let found = choose|found: int| 0 <= found < shorter.len() && shorter[found]
                        == id;
                    assert(ids[found] == id);
                } else {
                    assert(ids[ids.len() - 1] == id);
                }
            }
        }
    }
}

} // verus!
