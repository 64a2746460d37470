//! Laws of the store, proved from the outcomes that its commands ensure.

use vstd::prelude::*;
use crate::ordering::{any, distinct_stamps, first_index, first_match, is_newest_first, lemma_filter_same_test, lemma_filter_twice, lemma_first_index_is, lemma_first_index_none, lemma_first_index_props, lemma_newest_first_is_ordered, lemma_newest_first_len, lemma_newest_first_of_selection, lemma_newest_first_permutes, lemma_older_records_follow, lemma_rest_of_listing, older_than, Dated};
use crate::text::{lemma_text_before_total, lemma_text_before_transitive, text_before};
use crate::storage_manager::{at_most, conversation_with_id, create_dm_outcome, create_message_outcome, delete_file_outcome, dm_between, file_named, filename_ok, history, listed_message, member_holds, member_of, page_size, visibility_outcome, Conversation, File, MemberRow, Message, MessageRow, StorageError, Tables};

verus! {

// ---------------------------------------------------------------------------
// Access control
// ---------------------------------------------------------------------------

/// A private file is not handed to a stranger: whoever is not its owner and
/// belongs to no conversation in which it was attached is denied.
pub proof fn lemma_private_file_is_denied(t: Tables, requester: Seq<char>, name: Seq<char>)
    requires
        filename_ok(name),
        first_match(t.files, file_named(name)) is Some,
        first_match(t.files, file_named(name))->Some_0.user_id@ != requester,
        !first_match(t.files, file_named(name))->Some_0.is_public,
        !t.shared_with(requester, name),
    ensures
        t.read_outcome(requester, name) == Err::<File, StorageError>(StorageError::PermissionDenied),
{
    lemma_first_index_props(t.files, file_named(name));
}

/// Reading never hands out a file that the requester may not read.
pub proof fn lemma_read_only_what_is_allowed(t: Tables, requester: Seq<char>, name: Seq<char>)
    ensures
        t.read_outcome(requester, name) is Ok ==> t.may_read(
            requester,
            t.read_outcome(requester, name)->Ok_0,
        ),
{
}

/// Whoever is neither the owner of a file nor an administrator can neither
/// delete it nor change its visibility, and the store stays as it was.
pub proof fn lemma_stranger_cannot_change_file(
    before: Tables,
    after: Tables,
    r: Result<(), StorageError>,
    requester: Seq<char>,
    name: Seq<char>,
    is_public: bool,
)
    requires
        filename_ok(name),
        first_match(before.files, file_named(name)) is Some,
        first_match(before.files, file_named(name))->Some_0.user_id@ != requester,
        !before.is_admin(requester),
        delete_file_outcome(before, after, r, requester, name) || visibility_outcome(
            before,
            after,
            r,
            requester,
            name,
            is_public,
        ),
    ensures
        r == Err::<(), StorageError>(StorageError::PermissionDenied),
        after == before,
{
    lemma_first_index_props(before.files, file_named(name));
}

/// Whoever does not belong to a conversation cannot post to it, and the
/// store stays as it was.
pub proof fn lemma_stranger_cannot_post(
    before: Tables,
    after: Tables,
    r: Result<Message, StorageError>,
    message_id: Seq<char>,
    now: Seq<char>,
    conversation: Seq<char>,
    sender: Seq<char>,
    body: Seq<char>,
    attachment_ids: Seq<Seq<char>>,
)
    requires
        !before.is_member(conversation, sender),
        create_message_outcome(
            before,
            after,
            r,
            message_id,
            now,
            conversation,
            sender,
            body,
            attachment_ids,
        ),
    ensures
        r == Err::<Message, StorageError>(StorageError::PermissionDenied),
        after == before,
{
}

// ---------------------------------------------------------------------------
// Direct conversations
// ---------------------------------------------------------------------------

/// The order of the two users does not matter to the search for their
/// direct conversation.
pub proof fn lemma_dm_lookup_symmetric(t: Tables, a: Seq<char>, b: Seq<char>)
    ensures
        first_index(t.conversations, dm_between(a, b, t.members)) == first_index(
            t.conversations,
            dm_between(b, a, t.members),
        ),
{
    let p = dm_between(a, b, t.members);
    let q = dm_between(b, a, t.members);
    assert forall|c: Conversation| #[trigger] p(c) == q(c) by {}
    lemma_first_index_props(t.conversations, p);
    match first_index(t.conversations, p) {
        Some(i) => {
            assert forall|j: int| 0 <= j < i implies !q(#[trigger] t.conversations[j]) by {
                assert(!p(t.conversations[j]));
            }
            assert(q(t.conversations[i]));
            lemma_first_index_is(t.conversations, q, i);
        },
        None => {
            assert forall|j: int| 0 <= j < t.conversations.len() implies !q(
                #[trigger] t.conversations[j],
            ) by {
                assert(!p(t.conversations[j]));
            }
            lemma_first_index_none(t.conversations, q);
        },
    }
}

/// Asking twice for the direct conversation of two users, in either order,
/// gives the same conversation both times, and the second request changes
/// nothing.
pub proof fn lemma_dm_is_idempotent(
    t0: Tables,
    t1: Tables,
    t2: Tables,
    r1: Result<Conversation, StorageError>,
    r2: Result<Conversation, StorageError>,
    id1: Seq<char>,
    now1: Seq<char>,
    id2: Seq<char>,
    now2: Seq<char>,
    a: Seq<char>,
    b: Seq<char>,
    swapped: bool,
)
    requires
        create_dm_outcome(t0, t1, r1, id1, now1, a, b),
        r1 is Ok,
        if swapped {
            create_dm_outcome(t1, t2, r2, id2, now2, b, a)
        } else {
            create_dm_outcome(t1, t2, r2, id2, now2, a, b)
        },
    ensures
        r2 == r1,
        t2 == t1,
{
    let in_first = dm_between(a, b, t0.members);
    let in_second = dm_between(a, b, t1.members);
    lemma_first_index_props(t0.conversations, in_first);
    match first_index(t0.conversations, in_first) {
        Some(i) => {
            // The conversation existed and nothing was stored.
            assert(t1 == t0);
        },
        None => {
            let n = t0.conversations.len() as int;
            let m = t0.members.len() as int;
            let c = r1->Ok_0;
            let added = t1.members.skip(m);
            assert(t1.conversations == t0.conversations.push(c));
            assert(t1.members == t0.members + added);
            assert(member_holds(added[0], id1, a, now1));
            assert(member_holds(added[1], id1, b, now1));
            assert(t1.members[m] == added[0]);
            assert(t1.members[m + 1] == added[1]);
            assert(member_of(id1, a)(t1.members[m]));
            assert(member_of(id1, b)(t1.members[m + 1]));
            assert(c.kind@ == "dm"@);
            assert(in_second(t1.conversations[n]));
            assert forall|j: int| 0 <= j < n implies !in_second(#[trigger] t1.conversations[j]) by {
                let cj = t0.conversations[j];
                assert(t1.conversations[j] == cj);
                assert(!in_first(cj));
                assert(conversation_with_id(cj.conversation_id@)(cj));
                assert(cj.conversation_id@ != id1);
                lemma_members_of_other_conversation(t0.members, added, cj.conversation_id@, a);
                lemma_members_of_other_conversation(t0.members, added, cj.conversation_id@, b);
            }
            lemma_first_index_is(t1.conversations, in_second, n);
        },
    }
    lemma_dm_lookup_symmetric(t1, a, b);
}

/// Memberships of one conversation do not make anyone a member of another.
proof fn lemma_members_of_other_conversation(
    members: Seq<MemberRow>,
    added: Seq<MemberRow>,
    conversation: Seq<char>,
    user: Seq<char>,
)
    requires
        forall|k: int| 0 <= k < added.len() ==> (#[trigger] added[k]).conversation_id@ != conversation,
    ensures
        any(members + added, member_of(conversation, user)) == any(
            members,
            member_of(conversation, user),
        ),
{
    let all = members + added;
    let p = member_of(conversation, user);
    if any(all, p) {
        let i = choose|i: int| 0 <= i < all.len() && p(#[trigger] all[i]);
        if i >= members.len() {
            assert(all[i] == added[i - members.len()]);
        } else {
            assert(all[i] == members[i]);
        }
    }
    if any(members, p) {
        let i = choose|i: int| 0 <= i < members.len() && p(#[trigger] members[i]);
        assert(all[i] == members[i]);
    }
}

// ---------------------------------------------------------------------------
// Paging through a history
// ---------------------------------------------------------------------------

/// The messages that a reader collects who asks for page after page, up
/// to `rounds` times, each time for what is older than the last message of
/// the page before, and who stops at an empty page.
pub open spec fn pages(t: Tables, conversation: Seq<char>, before: Option<Seq<char>>, limit: u32, rounds: nat) -> Seq<
    MessageRow,
>
    decreases rounds,
{
    let page = at_most(history(t, conversation, before), page_size(limit));
    if rounds == 0 || page.len() == 0 {
        Seq::empty()
    } else {
        page + pages(
            t,
            conversation,
            Some(page.last().created_at@),
            limit,
            (rounds - 1) as nat,
        )
    }
}

/// A history is ordered, newest first, and holds exactly the messages of
/// the conversation that qualify, each once for each time it is stored.
pub proof fn lemma_history_is_ordered(t: Tables, conversation: Seq<char>, before: Option<Seq<char>>)
    ensures
        is_newest_first(history(t, conversation, before)),
        history(t, conversation, before).to_multiset() =~= t.messages.filter(
            listed_message(conversation, before, t.users),
        ).to_multiset(),
        history(t, conversation, before).len() == t.messages.filter(
            listed_message(conversation, before, t.users),
        ).len(),
{
    let listed = t.messages.filter(listed_message(conversation, before, t.users));
    lemma_newest_first_is_ordered(listed);
    lemma_newest_first_permutes(listed);
    lemma_newest_first_len(listed);
}

/// Where no two messages of a history have the same time stamp, the
/// history is in strictly descending order.
pub proof fn lemma_history_strictly_descends(t: Tables, conversation: Seq<char>, before: Option<Seq<char>>)
    requires
        distinct_stamps(history(t, conversation, before)),
    ensures
        forall|i: int, j: int|
            0 <= i < j < history(t, conversation, before).len() ==> text_before(
                (#[trigger] history(t, conversation, before)[j]).created_at@,
                (#[trigger] history(t, conversation, before)[i]).created_at@,
            ),
{
    let h = history(t, conversation, before);
    lemma_history_is_ordered(t, conversation, before);
    assert forall|i: int, j: int| 0 <= i < j < h.len() implies text_before(
        (#[trigger] h[j]).created_at@,
        (#[trigger] h[i]).created_at@,
    ) by {
        assert(!text_before(h[i].stamp(), h[j].stamp()));
        assert(h[i].stamp() != h[j].stamp());
        lemma_text_before_total(h[j].stamp(), h[i].stamp());
    }
}

/// The next page begins where the last one ended: what is older than the
/// last message of a page is exactly what follows the page in the history.
/// This needs messages with different time stamps; of two messages with
/// the same stamp at the end of a page the second would be passed over.
pub proof fn lemma_next_page_continues(t: Tables, conversation: Seq<char>, before: Option<Seq<char>>, limit: u32)
    requires
        limit >= 1,
        history(t, conversation, before).len() > 0,
        distinct_stamps(history(t, conversation, before)),
    ensures
        ({
            let h = history(t, conversation, before);
            let page = at_most(h, page_size(limit));
            &&& page.len() >= 1
            &&& history(t, conversation, Some(page.last().created_at@)) == h.skip(page.len() as int)
            &&& page + history(t, conversation, Some(page.last().created_at@)) == h
        }),
{
    broadcast use vstd::seq_lib::group_to_multiset_ensures;

    let listed_before = listed_message(conversation, before, t.users);
    let all = t.messages.filter(listed_before);
    let h = history(t, conversation, before);
    let page = at_most(h, page_size(limit));
    let k = page.len() - 1;
    assert(page.last() == h[k]);
    let cursor = h[k].created_at@;
    let older = older_than::<MessageRow>(cursor);
    let listed_cursor = listed_message(conversation, Some(cursor), t.users);

    // The last message of the page is one of the qualifying messages.
    lemma_newest_first_permutes(all);
    assert(h.contains(h[k]));
    assert(h.to_multiset().count(h[k]) > 0);
    assert(all.contains(h[k]));
    t.messages.filter_lemma(listed_before);
    let at = choose|i: int| 0 <= i < all.len() && all[i] == h[k];
    assert(listed_before(all[at]));

    // Older than the last message of the page and qualifying is the same
    // as qualifying for the next request.
    let both = |m: MessageRow| listed_before(m) && older(m);
    assert forall|i: int| 0 <= i < t.messages.len() implies listed_cursor(#[trigger] t.messages[i])
        == both(t.messages[i]) by {
        let m = t.messages[i];
        if text_before(m.created_at@, cursor) && before is Some {
            lemma_text_before_transitive(m.created_at@, cursor, before->Some_0);
        }
    }
    lemma_filter_same_test(t.messages, listed_cursor, both);
    lemma_filter_twice(t.messages, listed_before, older);
    assert(t.messages.filter(listed_cursor) == all.filter(older));

    lemma_newest_first_of_selection(all, older);
    lemma_newest_first_is_ordered(all);
    lemma_older_records_follow(h, k);
    assert(page + h.skip(page.len() as int) =~= h);
}

/// Whoever reads a history page by page, each time asking for what is older
/// than the last message he got, gets every message of the history exactly
/// once and in its order, provided that the messages have different time
/// stamps and that he asks often enough.
pub proof fn lemma_pages_cover_history(t: Tables, conversation: Seq<char>, before: Option<Seq<char>>, limit: u32, rounds: nat)
    requires
        limit >= 1,
        distinct_stamps(history(t, conversation, before)),
        rounds >= history(t, conversation, before).len(),
    ensures
        pages(t, conversation, before, limit, rounds) == history(t, conversation, before),
    decreases rounds,
{
    let h = history(t, conversation, before);
    let page = at_most(h, page_size(limit));
    if h.len() == 0 {
        assert(page =~= Seq::<MessageRow>::empty());
        assert(h =~= Seq::<MessageRow>::empty());
    } else {
        lemma_next_page_continues(t, conversation, before, limit);
        let cursor = page.last().created_at@;
        let rest = history(t, conversation, Some(cursor));
        lemma_rest_of_listing(h, page.len() as int);
        lemma_pages_cover_history(t, conversation, Some(cursor), limit, (rounds - 1) as nat);
    }
}

/// No page holds more messages than were asked for, nor more than the
/// largest page.
pub proof fn lemma_page_is_bounded(t: Tables, conversation: Seq<char>, before: Option<Seq<char>>, limit: u32)
    ensures
        at_most(history(t, conversation, before), page_size(limit)).len() <= limit,
        at_most(history(t, conversation, before), page_size(limit)).len()
            <= crate::storage_manager::MAX_PAGE,
{
}

} // verus!
