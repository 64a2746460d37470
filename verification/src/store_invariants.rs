//! What holds of the tables at all times: keys are unique, rows point at
//! rows that exist, and file names are acceptable. Every command of the
//! store keeps it so.

use vstd::prelude::*;
use crate::ordering::{any, every, first_index, lemma_first_index_props, pairwise};
use crate::storage_manager::{attachment_of_message, attachment_of_other_file, attachment_survives, conversation_not_created_by, create_group_outcome, create_message_outcome, delete_file_outcome, distinct, file_ids, file_not_owned_by, file_other_than, group_members, membership_survives, message_survives, not_member_of, owned_file_with_id, resolved_files, user_other_than, add_member_outcome, conversation_with_id, create_dm_outcome, create_user_outcome, file_named, file_with_id, filename_ok, member_of, membership_in, message_with_id, other_user_with_email, rename_outcome, upload_outcome, user_named, user_with_email, create_space_outcome, space_not_owned_by, space_with_id, Space, user_with_id, visibility_outcome, AttachmentRow, Conversation, File, MemberRow, MessageRow, StorageError, Tables, User, UserRecord};

verus! {

// ---------------------------------------------------------------------------
// Tools
// ---------------------------------------------------------------------------

/// A selection from records that all differ holds records that all differ.
pub proof fn lemma_pairwise_filter<T>(s: Seq<T>, keep: spec_fn(T) -> bool, differ: spec_fn(T, T) -> bool)
    requires
        pairwise(s, differ),
    ensures
        pairwise(s.filter(keep), differ),
    decreases s.len(),
{
    reveal(Seq::filter);
    if s.len() > 0 {
        let t = s.drop_last();
        assert forall|i: int, j: int| 0 <= i < j < t.len() implies differ(
            #[trigger] t[i],
            #[trigger] t[j],
        ) by {
            assert(t[i] == s[i] && t[j] == s[j]);
        }
        lemma_pairwise_filter(t, keep, differ);
        let f = t.filter(keep);
        if keep(s.last()) {
            let out = f.push(s.last());
            assert forall|i: int, j: int| 0 <= i < j < out.len() implies differ(
                #[trigger] out[i],
                #[trigger] out[j],
            ) by {
                if j < f.len() {
                    assert(out[i] == f[i] && out[j] == f[j]);
                } else {
                    assert(out[i] == f[i]);
                    assert(f.contains(f[i]));
                    t.lemma_filter_contains_rev(keep, f[i]);
                    let m = choose|m: int| 0 <= m < t.len() && t[m] == f[i];
                    assert(t[m] == s[m]);
                    assert(differ(s[m], s[s.len() - 1]));
                }
            }
        }
    }
}

/// A record that differs from all others may join them.
pub proof fn lemma_pairwise_push<T>(s: Seq<T>, x: T, differ: spec_fn(T, T) -> bool)
    requires
        pairwise(s, differ),
        forall|i: int| 0 <= i < s.len() ==> differ(#[trigger] s[i], x),
    ensures
        pairwise(s.push(x), differ),
{
    let out = s.push(x);
    assert forall|i: int, j: int| 0 <= i < j < out.len() implies differ(
        #[trigger] out[i],
        #[trigger] out[j],
    ) by {
        if j < s.len() {
            assert(out[i] == s[i] && out[j] == s[j]);
        } else {
            assert(out[i] == s[i]);
        }
    }
}

/// A record may take the place of another if it differs from all the rest.
pub proof fn lemma_pairwise_update<T>(s: Seq<T>, at: int, x: T, differ: spec_fn(T, T) -> bool)
    requires
        pairwise(s, differ),
        0 <= at < s.len(),
        forall|i: int| 0 <= i < at ==> differ(#[trigger] s[i], x),
        forall|i: int| at < i < s.len() ==> differ(x, #[trigger] s[i]),
    ensures
        pairwise(s.update(at, x), differ),
{
    let out = s.update(at, x);
    assert forall|i: int, j: int| 0 <= i < j < out.len() implies differ(
        #[trigger] out[i],
        #[trigger] out[j],
    ) by {
        if i != at && j != at {
            assert(out[i] == s[i] && out[j] == s[j]);
        } else if i == at {
            assert(out[j] == s[j]);
        } else {
            assert(out[i] == s[i]);
        }
    }
}

/// What holds of every record holds of every record of a selection.
pub proof fn lemma_every_filter<T>(s: Seq<T>, keep: spec_fn(T) -> bool, p: spec_fn(T) -> bool)
    requires
        every(s, p),
    ensures
        every(s.filter(keep), p),
        every(s.filter(keep), keep),
{
    crate::ordering::lemma_filter_keeps_property(s, keep, p);
    s.filter_lemma(keep);
}

/// A record that passes the test of a selection and satisfies `p` is found
/// in the selection.
pub proof fn lemma_any_filter<T>(s: Seq<T>, keep: spec_fn(T) -> bool, p: spec_fn(T) -> bool)
    requires
        exists|i: int| 0 <= i < s.len() && keep(#[trigger] s[i]) && p(s[i]),
    ensures
        any(s.filter(keep), p),
{
    let i = choose|i: int| 0 <= i < s.len() && keep(#[trigger] s[i]) && p(s[i]);
    s.filter_lemma(keep);
    assert(s.filter(keep).contains(s[i]));
    let j = choose|j: int| 0 <= j < s.filter(keep).len() && s.filter(keep)[j] == s[i];
    assert(p(s.filter(keep)[j]));
}

/// What is found among records is found among more records.
pub proof fn lemma_any_push<T>(s: Seq<T>, x: T, p: spec_fn(T) -> bool)
    ensures
        any(s, p) ==> any(s.push(x), p),
        p(x) ==> any(s.push(x), p),
        any(s.push(x), p) ==> any(s, p) || p(x),
{
    let out = s.push(x);
    if any(s, p) {
        let i = choose|i: int| 0 <= i < s.len() && p(#[trigger] s[i]);
        assert(out[i] == s[i]);
    }
    if p(x) {
        assert(out[s.len() as int] == x);
    }
    if any(out, p) {
        let i = choose|i: int| 0 <= i < out.len() && p(#[trigger] out[i]);
        if i < s.len() {
            assert(out[i] == s[i]);
        }
    }
}

/// A first match exists exactly where some record matches.
pub proof fn lemma_found_iff_any<T>(s: Seq<T>, p: spec_fn(T) -> bool)
    ensures
        first_index(s, p) is Some <==> any(s, p),
{
    lemma_first_index_props(s, p);
}

// ---------------------------------------------------------------------------
// The invariant
// ---------------------------------------------------------------------------

/// Two users differ in id, name and address.
pub open spec fn users_differ() -> spec_fn(UserRecord, UserRecord) -> bool {
    |a: UserRecord, b: UserRecord|
        a.user.user_id@ != b.user.user_id@ && a.user.username@ != b.user.username@ && a.user.email@
            != b.user.email@
}

/// Two files differ in id.
pub open spec fn files_differ() -> spec_fn(File, File) -> bool {
    |a: File, b: File| a.file_id@ != b.file_id@
}

/// Two conversations differ in id.
pub open spec fn conversations_differ() -> spec_fn(Conversation, Conversation) -> bool {
    |a: Conversation, b: Conversation| a.conversation_id@ != b.conversation_id@
}

/// Two memberships differ in conversation or user.
pub open spec fn members_differ() -> spec_fn(MemberRow, MemberRow) -> bool {
    |a: MemberRow, b: MemberRow| a.conversation_id@ != b.conversation_id@ || a.user_id@ != b.user_id@
}

/// Two messages differ in id.
pub open spec fn messages_differ() -> spec_fn(MessageRow, MessageRow) -> bool {
    |a: MessageRow, b: MessageRow| a.message_id@ != b.message_id@
}

/// Two attachments differ in message or file.
pub open spec fn attachments_differ() -> spec_fn(AttachmentRow, AttachmentRow) -> bool {
    |a: AttachmentRow, b: AttachmentRow| a.message_id@ != b.message_id@ || a.file_id@ != b.file_id@
}

/// Two spaces differ in id.
pub open spec fn spaces_differ() -> spec_fn(Space, Space) -> bool {
    |a: Space, b: Space| a.space_id@ != b.space_id@
}

/// The test for a space whose owner is among `users`.
pub open spec fn space_sound(users: Seq<UserRecord>) -> spec_fn(Space) -> bool {
    |x: Space| any(users, user_with_id(x.user_id@))
}

/// The test for a file whose owner is among `users` and whose name is
/// acceptable.
pub open spec fn file_sound(users: Seq<UserRecord>) -> spec_fn(File) -> bool {
    |f: File| any(users, user_with_id(f.user_id@)) && filename_ok(f.file_name@)
}

/// The test for a conversation whose creator is among `users`.
pub open spec fn conversation_sound(users: Seq<UserRecord>) -> spec_fn(Conversation) -> bool {
    |c: Conversation| any(users, user_with_id(c.created_by@))
}

/// The test for a membership whose conversation and user exist.
pub open spec fn member_sound(users: Seq<UserRecord>, conversations: Seq<Conversation>) -> spec_fn(
    MemberRow,
) -> bool {
    |m: MemberRow|
        any(users, user_with_id(m.user_id@)) && any(
            conversations,
            conversation_with_id(m.conversation_id@),
        )
}

/// The test for a message whose conversation and sender exist.
pub open spec fn message_sound(users: Seq<UserRecord>, conversations: Seq<Conversation>) -> spec_fn(
    MessageRow,
) -> bool {
    |m: MessageRow|
        any(users, user_with_id(m.sender_id@)) && any(
            conversations,
            conversation_with_id(m.conversation_id@),
        )
}

/// The test for an attachment whose message and file exist.
pub open spec fn attachment_sound(messages: Seq<MessageRow>, files: Seq<File>) -> spec_fn(
    AttachmentRow,
) -> bool {
    |a: AttachmentRow|
        any(messages, message_with_id(a.message_id@)) && any(files, file_with_id(a.file_id@))
}

/// No key is used twice: user ids, names and addresses, the ids of files,
/// conversations, messages and spaces, and the pairs that memberships and
/// attachments are.
pub open spec fn keys_unique(t: Tables) -> bool {
    &&& pairwise(t.users, users_differ())
    &&& pairwise(t.files, files_differ())
    &&& pairwise(t.conversations, conversations_differ())
    &&& pairwise(t.members, members_differ())
    &&& pairwise(t.messages, messages_differ())
    &&& pairwise(t.attachments, attachments_differ())
    &&& pairwise(t.spaces, spaces_differ())
}

/// Every row points at rows that exist, and every file name is acceptable.
pub open spec fn references_hold(t: Tables) -> bool {
    &&& every(t.files, file_sound(t.users))
    &&& every(t.conversations, conversation_sound(t.users))
    &&& every(t.members, member_sound(t.users, t.conversations))
    &&& every(t.messages, message_sound(t.users, t.conversations))
    &&& every(t.attachments, attachment_sound(t.messages, t.files))
    &&& every(t.spaces, space_sound(t.users))
}

/// The invariant of the tables.
pub open spec fn consistent(t: Tables) -> bool {
    keys_unique(t) && references_hold(t)
}

/// The empty store is consistent.
pub proof fn lemma_empty_is_consistent()
    ensures
        consistent(Tables::empty()),
{
}

// ---------------------------------------------------------------------------
// Rows that stay
// ---------------------------------------------------------------------------

/// Every user id of `a` is a user id of `b`.
pub open spec fn users_kept(a: Seq<UserRecord>, b: Seq<UserRecord>) -> bool {
    forall|id: Seq<char>| #[trigger] any(a, user_with_id(id)) ==> any(b, user_with_id(id))
}

/// Every file id of `a` is a file id of `b`.
pub open spec fn files_kept(a: Seq<File>, b: Seq<File>) -> bool {
    forall|id: Seq<char>| #[trigger] any(a, file_with_id(id)) ==> any(b, file_with_id(id))
}

/// Every conversation id of `a` is a conversation id of `b`.
pub open spec fn conversations_kept(a: Seq<Conversation>, b: Seq<Conversation>) -> bool {
    forall|id: Seq<char>|
        #[trigger] any(a, conversation_with_id(id)) ==> any(b, conversation_with_id(id))
}

/// Every message id of `a` is a message id of `b`.
pub open spec fn messages_kept(a: Seq<MessageRow>, b: Seq<MessageRow>) -> bool {
    forall|id: Seq<char>| #[trigger] any(a, message_with_id(id)) ==> any(b, message_with_id(id))
}

/// The test for a row that is among `rows` or satisfies `sound`.
pub open spec fn old_or<T>(rows: Seq<T>, sound: spec_fn(T) -> bool) -> spec_fn(T) -> bool {
    |r: T| rows.contains(r) || sound(r)
}

/// Where no id is lost and every row is an old one or points at rows that
/// exist, every row points at rows that exist.
pub proof fn lemma_references_carry(t: Tables, u: Tables)
    requires
        references_hold(t),
        users_kept(t.users, u.users),
        files_kept(t.files, u.files),
        conversations_kept(t.conversations, u.conversations),
        messages_kept(t.messages, u.messages),
        every(u.files, old_or(t.files, file_sound(u.users))),
        every(u.conversations, old_or(t.conversations, conversation_sound(u.users))),
        every(u.members, old_or(t.members, member_sound(u.users, u.conversations))),
        every(u.messages, old_or(t.messages, message_sound(u.users, u.conversations))),
        every(u.attachments, old_or(t.attachments, attachment_sound(u.messages, u.files))),
        every(u.spaces, old_or(t.spaces, space_sound(u.users))),
    ensures
        references_hold(u),
{
    assert forall|i: int| 0 <= i < u.spaces.len() implies space_sound(u.users)(#[trigger] u.spaces[i]) by {
        let x = u.spaces[i];
        assert(old_or(t.spaces, space_sound(u.users))(x));
        if t.spaces.contains(x) {
            let j = choose|j: int| 0 <= j < t.spaces.len() && t.spaces[j] == x;
            assert(space_sound(t.users)(t.spaces[j]));
            assert(any(t.users, user_with_id(x.user_id@)));
        }
    }
    assert forall|i: int| 0 <= i < u.files.len() implies file_sound(u.users)(#[trigger] u.files[i]) by {
        let f = u.files[i];
        assert(old_or(t.files, file_sound(u.users))(f));
        if t.files.contains(f) {
            let j = choose|j: int| 0 <= j < t.files.len() && t.files[j] == f;
            assert(file_sound(t.users)(t.files[j]));
            assert(any(t.users, user_with_id(f.user_id@)));
        }
    }
    assert forall|i: int| 0 <= i < u.conversations.len() implies conversation_sound(u.users)(
        #[trigger] u.conversations[i],
    ) by {
        let c = u.conversations[i];
        assert(old_or(t.conversations, conversation_sound(u.users))(c));
        if t.conversations.contains(c) {
            let j = choose|j: int| 0 <= j < t.conversations.len() && t.conversations[j] == c;
            assert(conversation_sound(t.users)(t.conversations[j]));
            assert(any(t.users, user_with_id(c.created_by@)));
        }
    }
    assert forall|i: int| 0 <= i < u.members.len() implies member_sound(u.users, u.conversations)(
        #[trigger] u.members[i],
    ) by {
        let m = u.members[i];
        assert(old_or(t.members, member_sound(u.users, u.conversations))(m));
        if t.members.contains(m) {
            let j = choose|j: int| 0 <= j < t.members.len() && t.members[j] == m;
            assert(member_sound(t.users, t.conversations)(t.members[j]));
            assert(any(t.users, user_with_id(m.user_id@)));
            assert(any(t.conversations, conversation_with_id(m.conversation_id@)));
        }
    }
    assert forall|i: int| 0 <= i < u.messages.len() implies message_sound(u.users, u.conversations)(
        #[trigger] u.messages[i],
    ) by {
        let m = u.messages[i];
        assert(old_or(t.messages, message_sound(u.users, u.conversations))(m));
        if t.messages.contains(m) {
            let j = choose|j: int| 0 <= j < t.messages.len() && t.messages[j] == m;
            assert(message_sound(t.users, t.conversations)(t.messages[j]));
            assert(any(t.users, user_with_id(m.sender_id@)));
            assert(any(t.conversations, conversation_with_id(m.conversation_id@)));
        }
    }
    assert forall|i: int| 0 <= i < u.attachments.len() implies attachment_sound(u.messages, u.files)(
        #[trigger] u.attachments[i],
    ) by {
        let a = u.attachments[i];
        assert(old_or(t.attachments, attachment_sound(u.messages, u.files))(a));
        if t.attachments.contains(a) {
            let j = choose|j: int| 0 <= j < t.attachments.len() && t.attachments[j] == a;
            assert(attachment_sound(t.messages, t.files)(t.attachments[j]));
            assert(any(t.messages, message_with_id(a.message_id@)));
            assert(any(t.files, file_with_id(a.file_id@)));
        }
    }
}

/// A table keeps its rows.
pub proof fn lemma_every_old<T>(rows: Seq<T>, sound: spec_fn(T) -> bool)
    ensures
        every(rows, old_or(rows, sound)),
{
    assert forall|i: int| 0 <= i < rows.len() implies old_or(rows, sound)(#[trigger] rows[i]) by {
        assert(rows.contains(rows[i]));
    }
}

/// A table with one more row keeps its rows, and the new row has to be
/// sound.
pub proof fn lemma_every_old_push<T>(rows: Seq<T>, x: T, sound: spec_fn(T) -> bool)
    requires
        sound(x),
    ensures
        every(rows.push(x), old_or(rows, sound)),
{
    let out = rows.push(x);
    assert forall|i: int| 0 <= i < out.len() implies old_or(rows, sound)(#[trigger] out[i]) by {
        if i < rows.len() {
            assert(out[i] == rows[i]);
            assert(rows.contains(rows[i]));
        }
    }
}

/// A table with one row replaced keeps its other rows, and the new row has
/// to be sound.
pub proof fn lemma_every_old_update<T>(rows: Seq<T>, at: int, x: T, sound: spec_fn(T) -> bool)
    requires
        0 <= at < rows.len(),
        sound(x),
    ensures
        every(rows.update(at, x), old_or(rows, sound)),
{
    let out = rows.update(at, x);
    assert forall|i: int| 0 <= i < out.len() implies old_or(rows, sound)(#[trigger] out[i]) by {
        if i != at {
            assert(out[i] == rows[i]);
            assert(rows.contains(rows[i]));
        }
    }
}

/// A table with rows added at its end keeps its rows, and the new rows
/// have to be sound.
pub proof fn lemma_every_old_add<T>(rows: Seq<T>, added: Seq<T>, sound: spec_fn(T) -> bool)
    requires
        every(added, sound),
    ensures
        every(rows + added, old_or(rows, sound)),
{
    let out = rows + added;
    assert forall|i: int| 0 <= i < out.len() implies old_or(rows, sound)(#[trigger] out[i]) by {
        if i < rows.len() {
            assert(out[i] == rows[i]);
            assert(rows.contains(rows[i]));
        } else {
            assert(out[i] == added[i - rows.len()]);
        }
    }
}

/// A table that only grows loses no id.
pub proof fn lemma_users_kept_push(users: Seq<UserRecord>, x: UserRecord)
    ensures
        users_kept(users, users.push(x)),
{
    assert forall|id: Seq<char>| #[trigger] any(users, user_with_id(id)) implies any(
        users.push(x),
        user_with_id(id),
    ) by {
        lemma_any_push(users, x, user_with_id(id));
    }
}

/// A user table in which one row is replaced by a row of the same id loses
/// no id.
pub proof fn lemma_users_kept_update(users: Seq<UserRecord>, at: int, x: UserRecord)
    requires
        0 <= at < users.len(),
        x.user.user_id@ == users[at].user.user_id@,
    ensures
        users_kept(users, users.update(at, x)),
{
    let out = users.update(at, x);
    assert forall|id: Seq<char>| #[trigger] any(users, user_with_id(id)) implies any(
        out,
        user_with_id(id),
    ) by {
        let i = choose|i: int| 0 <= i < users.len() && user_with_id(id)(#[trigger] users[i]);
        if i == at {
            assert(user_with_id(id)(out[at]));
        } else {
            assert(out[i] == users[i]);
        }
    }
}

/// A file table that only grows loses no id.
pub proof fn lemma_files_kept_push(files: Seq<File>, x: File)
    ensures
        files_kept(files, files.push(x)),
{
    assert forall|id: Seq<char>| #[trigger] any(files, file_with_id(id)) implies any(
        files.push(x),
        file_with_id(id),
    ) by {
        lemma_any_push(files, x, file_with_id(id));
    }
}

/// A file table in which one row is replaced by a row of the same id loses
/// no id.
pub proof fn lemma_files_kept_update(files: Seq<File>, at: int, x: File)
    requires
        0 <= at < files.len(),
        x.file_id@ == files[at].file_id@,
    ensures
        files_kept(files, files.update(at, x)),
{
    let out = files.update(at, x);
    assert forall|id: Seq<char>| #[trigger] any(files, file_with_id(id)) implies any(
        out,
        file_with_id(id),
    ) by {
        let i = choose|i: int| 0 <= i < files.len() && file_with_id(id)(#[trigger] files[i]);
        if i == at {
            assert(file_with_id(id)(out[at]));
        } else {
            assert(out[i] == files[i]);
        }
    }
}

/// A conversation table that only grows loses no id.
pub proof fn lemma_conversations_kept_push(conversations: Seq<Conversation>, x: Conversation)
    ensures
        conversations_kept(conversations, conversations.push(x)),
{
    assert forall|id: Seq<char>| #[trigger] any(conversations, conversation_with_id(id)) implies any(
        conversations.push(x),
        conversation_with_id(id),
    ) by {
        lemma_any_push(conversations, x, conversation_with_id(id));
    }
}

/// A conversation table in which one row is replaced by a row of the same
/// id loses no id.
pub proof fn lemma_conversations_kept_update(conversations: Seq<Conversation>, at: int, x: Conversation)
    requires
        0 <= at < conversations.len(),
        x.conversation_id@ == conversations[at].conversation_id@,
    ensures
        conversations_kept(conversations, conversations.update(at, x)),
{
    let out = conversations.update(at, x);
    assert forall|id: Seq<char>| #[trigger] any(conversations, conversation_with_id(id)) implies any(
        out,
        conversation_with_id(id),
    ) by {
        let i = choose|i: int|
            0 <= i < conversations.len() && conversation_with_id(id)(#[trigger] conversations[i]);
        if i == at {
            assert(conversation_with_id(id)(out[at]));
        } else {
            assert(out[i] == conversations[i]);
        }
    }
}

/// A message table that only grows loses no id.
pub proof fn lemma_messages_kept_push(messages: Seq<MessageRow>, x: MessageRow)
    ensures
        messages_kept(messages, messages.push(x)),
{
    assert forall|id: Seq<char>| #[trigger] any(messages, message_with_id(id)) implies any(
        messages.push(x),
        message_with_id(id),
    ) by {
        lemma_any_push(messages, x, message_with_id(id));
    }
}

/// Where only the users change and no user id is lost, every row still
/// points at rows that exist.
pub proof fn lemma_references_with_users(t: Tables, users: Seq<UserRecord>)
    requires
        references_hold(t),
        users_kept(t.users, users),
    ensures
        references_hold(Tables { users, ..t }),
{
    let u = Tables { users, ..t };
    lemma_every_old(t.files, file_sound(u.users));
    lemma_every_old(t.conversations, conversation_sound(u.users));
    lemma_every_old(t.members, member_sound(u.users, u.conversations));
    lemma_every_old(t.messages, message_sound(u.users, u.conversations));
    lemma_every_old(t.attachments, attachment_sound(u.messages, u.files));
    lemma_every_old(t.spaces, space_sound(u.users));
    lemma_references_carry(t, u);
}

// ---------------------------------------------------------------------------
// The commands keep the tables consistent
// ---------------------------------------------------------------------------

/// Creating or updating a user keeps the tables consistent.
pub proof fn lemma_create_user_keeps_consistent(
    before: Tables,
    after: Tables,
    r: Result<User, StorageError>,
    user_id: Seq<char>,
    now: Seq<char>,
    username: Seq<char>,
    email: Seq<char>,
    password_hash: Seq<char>,
    is_admin: bool,
)
    requires
        consistent(before),
        create_user_outcome(before, after, r, user_id, now, username, email, password_hash, is_admin),
    ensures
        consistent(after),
{
    lemma_first_index_props(before.users, user_named(username));
    if r is Ok {
        match first_index(before.users, user_named(username)) {
            Some(i) => {
                let x = after.users[i];
                assert(after.users == before.users.update(i, x));
                assert forall|j: int| 0 <= j < before.users.len() && j != i implies users_differ()(
                    #[trigger] before.users[j],
                    x,
                ) && users_differ()(x, before.users[j]) by {
                    let o = before.users[j];
                    if j < i {
                        assert(users_differ()(before.users[j], before.users[i]));
                    } else {
                        assert(users_differ()(before.users[i], before.users[j]));
                    }
                    assert(!other_user_with_email(email, before.users[i].user.user_id@)(o));
                }
                lemma_pairwise_update(before.users, i, x, users_differ());
                lemma_users_kept_update(before.users, i, x);
                lemma_references_with_users(before, after.users);
            },
            None => {
                let x = after.users.last();
                assert(after.users == before.users.push(x));
                lemma_first_index_props(before.users, user_with_id(user_id));
                assert forall|j: int| 0 <= j < before.users.len() implies users_differ()(
                    #[trigger] before.users[j],
                    x,
                ) by {
                    let o = before.users[j];
                    assert(!user_named(username)(o));
                    assert(!user_with_id(user_id)(o));
                    assert(!user_with_email(email)(o));
                }
                lemma_pairwise_push(before.users, x, users_differ());
                lemma_users_kept_push(before.users, x);
                lemma_references_with_users(before, after.users);
            },
        }
    }
}

/// Changing a user's role keeps the tables consistent.
pub proof fn lemma_role_keeps_consistent(before: Tables, after: Tables, id: Seq<char>, is_admin: bool, now: Seq<char>)
    requires
        consistent(before),
        before.with_role(id, is_admin, after, now),
    ensures
        consistent(after),
{
    lemma_first_index_props(before.users, user_with_id(id));
    match first_index(before.users, user_with_id(id)) {
        Some(i) => {
            let x = after.users[i];
            assert forall|j: int| 0 <= j < before.users.len() && j != i implies users_differ()(
                #[trigger] before.users[j],
                x,
            ) && users_differ()(x, before.users[j]) by {
                if j < i {
                    assert(users_differ()(before.users[j], before.users[i]));
                } else {
                    assert(users_differ()(before.users[i], before.users[j]));
                }
            }
            lemma_pairwise_update(before.users, i, x, users_differ());
            lemma_users_kept_update(before.users, i, x);
            lemma_references_with_users(before, after.users);
        },
        None => {},
    }
}

/// Storing the metadata of an upload keeps the tables consistent.
pub proof fn lemma_upload_keeps_consistent(
    before: Tables,
    after: Tables,
    r: Result<File, StorageError>,
    file_id: Seq<char>,
    now: Seq<char>,
    user_id: Seq<char>,
    file_name: Seq<char>,
    size_bytes: u64,
    is_public: bool,
)
    requires
        consistent(before),
        upload_outcome(before, after, r, file_id, now, user_id, file_name, size_bytes, is_public),
    ensures
        consistent(after),
{
    if r is Ok {
        let x = r->Ok_0;
        lemma_found_iff_any(before.users, user_with_id(user_id));
        assert forall|j: int| 0 <= j < before.files.len() implies files_differ()(
            #[trigger] before.files[j],
            x,
        ) by {
            assert(!file_with_id(file_id)(before.files[j]));
        }
        lemma_pairwise_push(before.files, x, files_differ());
        lemma_files_kept_push(before.files, x);
        assert(file_sound(after.users)(x));
        lemma_every_old_push(before.files, x, file_sound(after.users));
        lemma_every_old(before.conversations, conversation_sound(after.users));
        lemma_every_old(before.members, member_sound(after.users, after.conversations));
        lemma_every_old(before.messages, message_sound(after.users, after.conversations));
        lemma_every_old(before.attachments, attachment_sound(after.messages, after.files));
        lemma_every_old(before.spaces, space_sound(after.users));
        lemma_references_carry(before, after);
    }
}

/// Changing the visibility of a file keeps the tables consistent.
pub proof fn lemma_visibility_keeps_consistent(
    before: Tables,
    after: Tables,
    r: Result<(), StorageError>,
    requester: Seq<char>,
    name: Seq<char>,
    is_public: bool,
)
    requires
        consistent(before),
        visibility_outcome(before, after, r, requester, name, is_public),
    ensures
        consistent(after),
{
    match before.change_target(requester, name) {
        Err(_) => {},
        Ok(i) => {
            lemma_first_index_props(before.files, file_named(name));
            let x = File { is_public, ..before.files[i] };
            assert forall|j: int| 0 <= j < before.files.len() && j != i implies files_differ()(
                #[trigger] before.files[j],
                x,
            ) && files_differ()(x, before.files[j]) by {
                if j < i {
                    assert(files_differ()(before.files[j], before.files[i]));
                } else {
                    assert(files_differ()(before.files[i], before.files[j]));
                }
            }
            lemma_pairwise_update(before.files, i, x, files_differ());
            lemma_files_kept_update(before.files, i, x);
            assert(file_sound(before.users)(before.files[i]));
            assert(file_sound(after.users)(x));
            lemma_every_old_update(before.files, i, x, file_sound(after.users));
            lemma_every_old(before.conversations, conversation_sound(after.users));
            lemma_every_old(before.members, member_sound(after.users, after.conversations));
            lemma_every_old(before.messages, message_sound(after.users, after.conversations));
            lemma_every_old(before.attachments, attachment_sound(after.messages, after.files));
            lemma_every_old(before.spaces, space_sound(after.users));
            lemma_references_carry(before, after);
        },
    }
}

/// Renaming a conversation keeps the tables consistent.
pub proof fn lemma_rename_keeps_consistent(before: Tables, after: Tables, conversation: Seq<char>, name: Seq<char>, now: Seq<
    char,
>)
    requires
        consistent(before),
        rename_outcome(before, after, conversation, name, now),
    ensures
        consistent(after),
{
    lemma_first_index_props(before.conversations, conversation_with_id(conversation));
    match first_index(before.conversations, conversation_with_id(conversation)) {
        None => {},
        Some(i) => {
            let x = after.conversations[i];
            assert forall|j: int|
                0 <= j < before.conversations.len() && j != i implies conversations_differ()(
                #[trigger] before.conversations[j],
                x,
            ) && conversations_differ()(x, before.conversations[j]) by {
                if j < i {
                    assert(conversations_differ()(before.conversations[j], before.conversations[i]));
                } else {
                    assert(conversations_differ()(before.conversations[i], before.conversations[j]));
                }
            }
            lemma_pairwise_update(before.conversations, i, x, conversations_differ());
            lemma_conversations_kept_update(before.conversations, i, x);
            assert(conversation_sound(before.users)(before.conversations[i]));
            assert(conversation_sound(after.users)(x));
            lemma_every_old(before.files, file_sound(after.users));
            lemma_every_old_update(before.conversations, i, x, conversation_sound(after.users));
            lemma_every_old(before.members, member_sound(after.users, after.conversations));
            lemma_every_old(before.messages, message_sound(after.users, after.conversations));
            lemma_every_old(before.attachments, attachment_sound(after.messages, after.files));
            lemma_every_old(before.spaces, space_sound(after.users));
            lemma_references_carry(before, after);
        },
    }
}

/// Adding a member keeps the tables consistent.
pub proof fn lemma_add_member_keeps_consistent(
    before: Tables,
    after: Tables,
    r: Result<(), StorageError>,
    conversation: Seq<char>,
    user: Seq<char>,
    now: Seq<char>,
)
    requires
        consistent(before),
        add_member_outcome(before, after, r, conversation, user, now),
    ensures
        consistent(after),
{
    if r is Ok && !before.is_member(conversation, user) {
        let x = after.members.last();
        lemma_found_iff_any(before.users, user_with_id(user));
        assert forall|j: int| 0 <= j < before.members.len() implies members_differ()(
            #[trigger] before.members[j],
            x,
        ) by {
            assert(!member_of(conversation, user)(before.members[j]));
        }
        lemma_pairwise_push(before.members, x, members_differ());
        assert(member_sound(after.users, after.conversations)(x));
        lemma_every_old(before.files, file_sound(after.users));
        lemma_every_old(before.conversations, conversation_sound(after.users));
        lemma_every_old_push(before.members, x, member_sound(after.users, after.conversations));
        lemma_every_old(before.messages, message_sound(after.users, after.conversations));
        lemma_every_old(before.attachments, attachment_sound(after.messages, after.files));
        lemma_every_old(before.spaces, space_sound(after.users));
        lemma_references_carry(before, after);
    }
}

/// Creating a direct conversation keeps the tables consistent.
pub proof fn lemma_create_dm_keeps_consistent(
    before: Tables,
    after: Tables,
    r: Result<Conversation, StorageError>,
    conversation_id: Seq<char>,
    now: Seq<char>,
    a: Seq<char>,
    b: Seq<char>,
)
    requires
        consistent(before),
        create_dm_outcome(before, after, r, conversation_id, now, a, b),
    ensures
        consistent(after),
{
    if after != before {
        let c = r->Ok_0;
        let n = before.members.len() as int;
        let added = after.members.skip(n);
        assert(after.members == before.members + added);
        assert(added.len() == 2);
        lemma_found_iff_any(before.users, user_with_id(a));
        lemma_found_iff_any(before.users, user_with_id(b));
        // The conversation.
        assert forall|j: int| 0 <= j < before.conversations.len() implies conversations_differ()(
            #[trigger] before.conversations[j],
            c,
        ) by {
            assert(!conversation_with_id(conversation_id)(before.conversations[j]));
        }
        lemma_pairwise_push(before.conversations, c, conversations_differ());
        lemma_conversations_kept_push(before.conversations, c);
        lemma_any_push(before.conversations, c, conversation_with_id(conversation_id));
        // The memberships.
        assert forall|i: int, j: int| 0 <= i < j < after.members.len() implies members_differ()(
            #[trigger] after.members[i],
            #[trigger] after.members[j],
        ) by {
            if j < n {
                assert(after.members[i] == before.members[i] && after.members[j] == before.members[j]);
            } else if i < n {
                assert(after.members[i] == before.members[i]);
                assert(after.members[j] == added[j - n]);
                assert(!membership_in(conversation_id)(before.members[i]));
            } else {
                assert(after.members[i] == added[0]);
                assert(after.members[j] == added[1]);
            }
        }
        assert forall|i: int| 0 <= i < added.len() implies member_sound(
            after.users,
            after.conversations,
        )(#[trigger] added[i]) by {
            if i == 0 {
                assert(added[0].user_id@ == a);
            } else {
                assert(added[1].user_id@ == b);
            }
        }
        assert(conversation_sound(after.users)(c));
        lemma_every_old(before.files, file_sound(after.users));
        lemma_every_old_push(before.conversations, c, conversation_sound(after.users));
        lemma_every_old_add(before.members, added, member_sound(after.users, after.conversations));
        lemma_every_old(before.messages, message_sound(after.users, after.conversations));
        lemma_every_old(before.attachments, attachment_sound(after.messages, after.files));
        lemma_every_old(before.spaces, space_sound(after.users));
        lemma_references_carry(before, after);
    }
}

/// A list without repetitions holds no text twice, and only texts of the
/// list it was made from.
pub proof fn lemma_distinct_props(ids: Seq<Seq<char>>)
    ensures
        forall|i: int, j: int|
            0 <= i < j < distinct(ids).len() ==> (#[trigger] distinct(ids)[i]) != (
            #[trigger] distinct(ids)[j]),
        forall|i: int| 0 <= i < distinct(ids).len() ==> ids.contains(#[trigger] distinct(ids)[i]),
    decreases ids.len(),
{
    if ids.len() > 0 {
        let rest = ids.drop_last();
        lemma_distinct_props(rest);
        let d = distinct(rest);
        let out = distinct(ids);
        assert forall|i: int| 0 <= i < out.len() implies ids.contains(#[trigger] out[i]) by {
            if i < d.len() {
                assert(out[i] == d[i]);
                assert(rest.contains(d[i]));
                let m = choose|m: int| 0 <= m < rest.len() && rest[m] == d[i];
                assert(ids[m] == rest[m]);
            } else {
                assert(out[i] == ids.last());
                assert(ids[ids.len() - 1] == ids.last());
            }
        }
        assert forall|i: int, j: int| 0 <= i < j < out.len() implies (#[trigger] out[i]) != (
        #[trigger] out[j]) by {
            if j < d.len() {
                assert(out[i] == d[i] && out[j] == d[j]);
            } else {
                assert(out[i] == d[i]);
                assert(d.contains(d[i]));
            }
        }
    }
}

/// Every file that attachment ids resolve to is a stored file.
pub proof fn lemma_resolved_files_exist(t: Tables, sender: Seq<char>, ids: Seq<Seq<char>>)
    ensures
        forall|i: int|
            0 <= i < resolved_files(t, sender, ids).len() ==> any(
                t.files,
                file_with_id((#[trigger] resolved_files(t, sender, ids)[i]).file_id@),
            ),
    decreases ids.len(),
{
    let pick = |id: Seq<char>| crate::ordering::first_match(t.files, owned_file_with_id(id, sender));
    if ids.len() > 0 {
        let rest = ids.drop_last();
        lemma_resolved_files_exist(t, sender, rest);
        let before = resolved_files(t, sender, rest);
        let out = resolved_files(t, sender, ids);
        assert(out == ids.filter_map(pick));
        assert(before == rest.filter_map(pick));
        lemma_first_index_props(t.files, owned_file_with_id(ids.last(), sender));
        assert forall|i: int| 0 <= i < out.len() implies any(
            t.files,
            file_with_id((#[trigger] out[i]).file_id@),
        ) by {
            if i < before.len() {
                assert(out[i] == before[i]);
            } else {
                let k = first_index(t.files, owned_file_with_id(ids.last(), sender))->Some_0;
                assert(out[i] == t.files[k]);
                assert(file_with_id(out[i].file_id@)(t.files[k]));
            }
        }
    }
}

/// Creating a group keeps the tables consistent.
pub proof fn lemma_create_group_keeps_consistent(
    before: Tables,
    after: Tables,
    r: Result<Conversation, StorageError>,
    conversation_id: Seq<char>,
    now: Seq<char>,
    creator: Seq<char>,
    name: Seq<char>,
    member_ids: Seq<Seq<char>>,
)
    requires
        consistent(before),
        create_group_outcome(before, after, r, conversation_id, now, creator, name, member_ids),
    ensures
        consistent(after),
{
    if r is Ok {
        let c = r->Ok_0;
        let n = before.members.len() as int;
        let added = after.members.skip(n);
        let who = group_members(creator, member_ids);
        assert(after.members == before.members + added);
        lemma_distinct_props(seq![creator] + member_ids);
        lemma_found_iff_any(before.users, user_with_id(creator));
        assert forall|j: int| 0 <= j < before.conversations.len() implies conversations_differ()(
            #[trigger] before.conversations[j],
            c,
        ) by {
            assert(!conversation_with_id(conversation_id)(before.conversations[j]));
        }
        lemma_pairwise_push(before.conversations, c, conversations_differ());
        lemma_conversations_kept_push(before.conversations, c);
        lemma_any_push(before.conversations, c, conversation_with_id(conversation_id));
        assert forall|i: int, j: int| 0 <= i < j < after.members.len() implies members_differ()(
            #[trigger] after.members[i],
            #[trigger] after.members[j],
        ) by {
            if j < n {
                assert(after.members[i] == before.members[i] && after.members[j] == before.members[j]);
            } else if i < n {
                assert(after.members[i] == before.members[i]);
                assert(after.members[j] == added[j - n]);
                assert(!membership_in(conversation_id)(before.members[i]));
            } else {
                assert(after.members[i] == added[i - n]);
                assert(after.members[j] == added[j - n]);
                assert(who[i - n] != who[j - n]);
            }
        }
        assert forall|i: int| 0 <= i < added.len() implies member_sound(
            after.users,
            after.conversations,
        )(#[trigger] added[i]) by {
            let all = seq![creator] + member_ids;
            assert(all.contains(who[i]));
            let m = choose|m: int| 0 <= m < all.len() && all[m] == who[i];
            if m == 0 {
                assert(who[i] == creator);
            } else {
                assert(all[m] == member_ids[m - 1]);
                assert(before.has_user(member_ids[m - 1]));
                lemma_found_iff_any(before.users, user_with_id(member_ids[m - 1]));
            }
            assert(added[i].user_id@ == who[i]);
        }
        assert(conversation_sound(after.users)(c));
        lemma_every_old(before.files, file_sound(after.users));
        lemma_every_old_push(before.conversations, c, conversation_sound(after.users));
        lemma_every_old_add(before.members, added, member_sound(after.users, after.conversations));
        lemma_every_old(before.messages, message_sound(after.users, after.conversations));
        lemma_every_old(before.attachments, attachment_sound(after.messages, after.files));
        lemma_every_old(before.spaces, space_sound(after.users));
        lemma_references_carry(before, after);
    }
}

/// Sending a message keeps the tables consistent.
pub proof fn lemma_create_message_keeps_consistent(
    before: Tables,
    after: Tables,
    r: Result<crate::storage_manager::Message, StorageError>,
    message_id: Seq<char>,
    now: Seq<char>,
    conversation: Seq<char>,
    sender: Seq<char>,
    body: Seq<char>,
    attachment_ids: Seq<Seq<char>>,
)
    requires
        consistent(before),
        create_message_outcome(
            before,
            after,
            r,
            message_id,
            now,
            conversation,
            sender,
            body,
            attachment_ids,
        ),
    ensures
        consistent(after),
{
    if r is Ok {
        let files = resolved_files(before, sender, attachment_ids);
        let links = distinct(file_ids(files));
        let n = before.attachments.len() as int;
        let added = after.attachments.skip(n);
        let row = after.messages.last();
        lemma_first_index_props(before.conversations, conversation_with_id(conversation));
        lemma_found_iff_any(before.conversations, conversation_with_id(conversation));
        lemma_found_iff_any(before.users, user_with_id(sender));
        let i = first_index(before.conversations, conversation_with_id(conversation))->Some_0;
        let touched = after.conversations[i];
        lemma_distinct_props(file_ids(files));
        lemma_resolved_files_exist(before, sender, attachment_ids);

        // Keys.
        assert forall|j: int| 0 <= j < before.messages.len() implies messages_differ()(
            #[trigger] before.messages[j],
            row,
        ) by {
            assert(!message_with_id(message_id)(before.messages[j]));
        }
        lemma_pairwise_push(before.messages, row, messages_differ());
        assert forall|j: int|
            0 <= j < before.conversations.len() && j != i implies conversations_differ()(
            #[trigger] before.conversations[j],
            touched,
        ) && conversations_differ()(touched, before.conversations[j]) by {
            if j < i {
                assert(conversations_differ()(before.conversations[j], before.conversations[i]));
            } else {
                assert(conversations_differ()(before.conversations[i], before.conversations[j]));
            }
        }
        lemma_pairwise_update(before.conversations, i, touched, conversations_differ());
        assert(after.attachments == before.attachments + added);
        assert forall|x: int, y: int|
            0 <= x < y < after.attachments.len() implies attachments_differ()(
            #[trigger] after.attachments[x],
            #[trigger] after.attachments[y],
        ) by {
            if y < n {
                assert(after.attachments[x] == before.attachments[x] && after.attachments[y]
                    == before.attachments[y]);
            } else if x < n {
                assert(after.attachments[x] == before.attachments[x]);
                assert(after.attachments[y] == added[y - n]);
                assert(!attachment_of_message(message_id)(before.attachments[x]));
            } else {
                assert(after.attachments[x] == added[x - n]);
                assert(after.attachments[y] == added[y - n]);
                assert(links[x - n] != links[y - n]);
            }
        }

        // References.
        lemma_conversations_kept_update(before.conversations, i, touched);
        lemma_messages_kept_push(before.messages, row);
        lemma_any_push(before.messages, row, message_with_id(message_id));
        assert(conversation_sound(before.users)(before.conversations[i]));
        assert(conversation_sound(after.users)(touched));
        assert(any(after.conversations, conversation_with_id(conversation)));
        assert(message_sound(after.users, after.conversations)(row));
        assert forall|k: int| 0 <= k < added.len() implies attachment_sound(
            after.messages,
            after.files,
        )(#[trigger] added[k]) by {
            let ids = file_ids(files);
            assert(ids.contains(links[k]));
            let m = choose|m: int| 0 <= m < ids.len() && ids[m] == links[k];
            assert(ids[m] == files[m].file_id@);
            assert(any(before.files, file_with_id(files[m].file_id@)));
            assert(added[k].file_id@ == links[k]);
            assert(added[k].message_id@ == message_id);
        }
        assert(files_kept(before.files, after.files));
        assert(users_kept(before.users, after.users));
        lemma_every_old(before.files, file_sound(after.users));
        lemma_every_old_update(before.conversations, i, touched, conversation_sound(after.users));
        lemma_every_old(before.members, member_sound(after.users, after.conversations));
        lemma_every_old_push(before.messages, row, message_sound(after.users, after.conversations));
        lemma_every_old_add(
            before.attachments,
            added,
            attachment_sound(after.messages, after.files),
        );
        lemma_every_old(before.spaces, space_sound(after.users));
        lemma_references_carry(before, after);
    }
}

// ---------------------------------------------------------------------------
// Deleting
// ---------------------------------------------------------------------------

/// Removing a member keeps the tables consistent.
pub proof fn lemma_remove_member_keeps_consistent(before: Tables, conversation: Seq<char>, user: Seq<char>)
    requires
        consistent(before),
    ensures
        consistent(
            Tables { members: before.members.filter(not_member_of(conversation, user)), ..before },
        ),
{
    let keep = not_member_of(conversation, user);
    lemma_pairwise_filter(before.members, keep, members_differ());
    lemma_every_filter(before.members, keep, member_sound(before.users, before.conversations));
}

/// Deleting a file with its attachments keeps the tables consistent.
pub proof fn lemma_delete_file_keeps_consistent(
    before: Tables,
    after: Tables,
    r: Result<(), StorageError>,
    requester: Seq<char>,
    name: Seq<char>,
)
    requires
        consistent(before),
        delete_file_outcome(before, after, r, requester, name),
    ensures
        consistent(after),
{
    if r is Ok {
        let i = before.change_target(requester, name)->Ok_0;
        let id = before.files[i].file_id@;
        let keep_file = file_other_than(id);
        let keep_link = attachment_of_other_file(id);
        lemma_pairwise_filter(before.files, keep_file, files_differ());
        lemma_pairwise_filter(before.attachments, keep_link, attachments_differ());
        lemma_every_filter(before.files, keep_file, file_sound(before.users));
        lemma_every_filter(
            before.attachments,
            keep_link,
            attachment_sound(before.messages, before.files),
        );
        assert forall|k: int| 0 <= k < after.attachments.len() implies attachment_sound(
            after.messages,
            after.files,
        )(#[trigger] after.attachments[k]) by {
            let a = after.attachments[k];
            assert(attachment_sound(before.messages, before.files)(a));
            assert(keep_link(a));
            let m = choose|m: int|
                0 <= m < before.files.len() && file_with_id(a.file_id@)(#[trigger] before.files[m]);
            assert(keep_file(before.files[m]));
            lemma_any_filter(before.files, keep_file, file_with_id(a.file_id@));
        }
    }
}

/// Deleting a user with everything that belongs to him keeps the tables
/// consistent.
pub proof fn lemma_delete_user_keeps_consistent(before: Tables, id: Seq<char>)
    requires
        consistent(before),
    ensures
        consistent(before.without_user(id)),
{
    let after = before.without_user(id);
    let keep_user = user_other_than(id);
    let keep_file = file_not_owned_by(id);
    let keep_conversation = conversation_not_created_by(id);
    let keep_member = membership_survives(id, after.conversations);
    let keep_message = message_survives(id, after.conversations);
    let keep_link = attachment_survives(after.messages, after.files);
    lemma_pairwise_filter(before.users, keep_user, users_differ());
    lemma_pairwise_filter(before.files, keep_file, files_differ());
    lemma_pairwise_filter(before.conversations, keep_conversation, conversations_differ());
    lemma_pairwise_filter(before.members, keep_member, members_differ());
    lemma_pairwise_filter(before.messages, keep_message, messages_differ());
    lemma_pairwise_filter(before.attachments, keep_link, attachments_differ());
    lemma_pairwise_filter(before.spaces, space_not_owned_by(id), spaces_differ());
    lemma_every_filter(before.spaces, space_not_owned_by(id), space_sound(before.users));
    assert forall|k: int| 0 <= k < after.spaces.len() implies space_sound(after.users)(
        #[trigger] after.spaces[k],
    ) by {
        let x = after.spaces[k];
        assert(space_sound(before.users)(x) && space_not_owned_by(id)(x));
        lemma_user_survives(before.users, id, x.user_id@);
    }
    lemma_every_filter(before.files, keep_file, file_sound(before.users));
    lemma_every_filter(before.conversations, keep_conversation, conversation_sound(before.users));
    lemma_every_filter(
        before.members,
        keep_member,
        member_sound(before.users, before.conversations),
    );
    lemma_every_filter(
        before.messages,
        keep_message,
        message_sound(before.users, before.conversations),
    );
    lemma_every_filter(
        before.attachments,
        keep_link,
        attachment_sound(before.messages, before.files),
    );
    assert forall|k: int| 0 <= k < after.files.len() implies file_sound(after.users)(
        #[trigger] after.files[k],
    ) by {
        let f = after.files[k];
        assert(file_sound(before.users)(f) && keep_file(f));
        lemma_user_survives(before.users, id, f.user_id@);
    }
    assert forall|k: int| 0 <= k < after.conversations.len() implies conversation_sound(
        after.users,
    )(#[trigger] after.conversations[k]) by {
        let c = after.conversations[k];
        assert(conversation_sound(before.users)(c) && keep_conversation(c));
        lemma_user_survives(before.users, id, c.created_by@);
    }
    assert forall|k: int| 0 <= k < after.members.len() implies member_sound(
        after.users,
        after.conversations,
    )(#[trigger] after.members[k]) by {
        let m = after.members[k];
        assert(member_sound(before.users, before.conversations)(m) && keep_member(m));
        lemma_user_survives(before.users, id, m.user_id@);
    }
    assert forall|k: int| 0 <= k < after.messages.len() implies message_sound(
        after.users,
        after.conversations,
    )(#[trigger] after.messages[k]) by {
        let m = after.messages[k];
        assert(message_sound(before.users, before.conversations)(m) && keep_message(m));
        lemma_user_survives(before.users, id, m.sender_id@);
    }
    assert forall|k: int| 0 <= k < after.attachments.len() implies attachment_sound(
        after.messages,
        after.files,
    )(#[trigger] after.attachments[k]) by {
        let a = after.attachments[k];
        assert(keep_link(a));
    }
}

/// A user other than the deleted one is still there.
proof fn lemma_user_survives(users: Seq<UserRecord>, deleted: Seq<char>, id: Seq<char>)
    requires
        any(users, user_with_id(id)),
        id != deleted,
    ensures
        any(users.filter(user_other_than(deleted)), user_with_id(id)),
{
    let m = choose|m: int| 0 <= m < users.len() && user_with_id(id)(#[trigger] users[m]);
    assert(user_other_than(deleted)(users[m]));
    lemma_any_filter(users, user_other_than(deleted), user_with_id(id));
}

/// Creating a space keeps the tables consistent.
pub proof fn lemma_create_space_keeps_consistent(
    before: Tables,
    after: Tables,
    r: Result<Space, StorageError>,
    space_id: Seq<char>,
    now: Seq<char>,
    user_id: Seq<char>,
    name: Seq<char>,
    storage_quota_milli_gb: u64,
    is_public: bool,
)
    requires
        consistent(before),
        create_space_outcome(
            before,
            after,
            r,
            space_id,
            now,
            user_id,
            name,
            storage_quota_milli_gb,
            is_public,
        ),
    ensures
        consistent(after),
{
    if r is Ok {
        let x = r->Ok_0;
        lemma_found_iff_any(before.users, user_with_id(user_id));
        assert forall|j: int| 0 <= j < before.spaces.len() implies spaces_differ()(
            #[trigger] before.spaces[j],
            x,
        ) by {
            assert(!space_with_id(space_id)(before.spaces[j]));
        }
        lemma_pairwise_push(before.spaces, x, spaces_differ());
        assert(space_sound(after.users)(x));
        lemma_every_old(before.files, file_sound(after.users));
        lemma_every_old(before.conversations, conversation_sound(after.users));
        lemma_every_old(before.members, member_sound(after.users, after.conversations));
        lemma_every_old(before.messages, message_sound(after.users, after.conversations));
        lemma_every_old(before.attachments, attachment_sound(after.messages, after.files));
        lemma_every_old_push(before.spaces, x, space_sound(after.users));
        assert(users_kept(before.users, after.users));
        assert(files_kept(before.files, after.files));
        assert(conversations_kept(before.conversations, after.conversations));
        assert(messages_kept(before.messages, after.messages));
        lemma_references_carry(before, after);
    }
}

} // verus!
