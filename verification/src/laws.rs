//! Laws of the protocol layer, each proved over the spec functions that the
//! executable contracts use.

use vstd::prelude::*;

use crate::client::spec_next_reqid;
use crate::decoder::conv_id_of;
use crate::decoder::opt_get;
use crate::decoder::opt_str;
use crate::decoder::resp_id_of;
use crate::json::Json;
use crate::json::j_get;
use crate::persist::SavedConversation;
use crate::persist::spec_find;
use crate::persist::spec_upsert;
use crate::token::InitOutcome;
use crate::token::is_success_status;
use crate::token::login_markers_present;
use crate::token::snlm0e_capture;
use crate::token::spec_init_outcome;

verus! {

/// A body carrying a login-page marker makes token acquisition fail with an
/// authentication error, whatever the token pattern says, for every status
/// that does not already fail as a plain HTTP error: every success status,
/// and 401 and 403.
pub proof fn lemma_login_marker_forces_authentication(status: u16, body: Seq<u8>)
    requires
        login_markers_present(body),
        is_success_status(status) || status == 401 || status == 403,
    ensures
        spec_init_outcome(status, body) == InitOutcome::AuthLogin || spec_init_outcome(
            status,
            body,
        ) == InitOutcome::AuthStatus,
{
}

/// On a success status without login markers, token acquisition yields
/// exactly the captured token.
pub proof fn lemma_token_is_captured(status: u16, body: Seq<u8>, cap: Seq<u8>)
    requires
        is_success_status(status),
        !login_markers_present(body),
        snlm0e_capture(body) == Some(cap),
    ensures
        spec_init_outcome(status, body) == InitOutcome::Token(cap),
{
}

/// An envelope that omits its continuation pair leaves the continuation
/// triple's first two entries unchanged: continuation survives envelope
/// drift.
pub proof fn lemma_continuation_defaults(b: Json, prev_cid: Seq<char>, prev_rid: Seq<char>)
    requires
        opt_str(opt_get(j_get(b, 1), 0)) is None,
        opt_str(opt_get(j_get(b, 1), 1)) is None,
    ensures
        conv_id_of(b, prev_cid) == prev_cid,
        resp_id_of(b, prev_rid) == prev_rid,
{
}

/// The nonce after a successful exchange never repeats its prior value and
/// stays positive, whatever delta the range allows.
pub proof fn lemma_nonce_always_changes(reqid: u32, delta: u32)
    requires
        1000 <= delta < 9000,
    ensures
        spec_next_reqid(reqid, delta) != reqid,
        spec_next_reqid(reqid, delta) >= 1000,
{
}

/// Saving a named conversation and then looking it up by that name finds
/// exactly the record that was saved, whatever the collection held before.
pub proof fn lemma_save_then_find(list: Seq<SavedConversation>, c: SavedConversation)
    ensures
        spec_find(spec_upsert(list, c), c.conversation_name@) == Some(c),
    decreases list.len(),
{
    if list.len() == 0 {
        assert(spec_upsert(list, c) =~= seq![c]);
    } else if list[0].conversation_name@ == c.conversation_name@ {
        assert((seq![c] + list.skip(1))[0] == c);
    } else {
        lemma_save_then_find(list.skip(1), c);
        let up = seq![list[0]] + spec_upsert(list.skip(1), c);
        assert(up[0] == list[0]);
        assert(up.skip(1) =~= spec_upsert(list.skip(1), c));
    }
}

} // verus!
