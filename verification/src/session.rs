//! The durable session record and the session store's data mapping.
//!
//! A `PersistedSession` carries everything needed to resume an authenticated
//! connection after a restart: the local store's location and secret, the
//! authentication tokens and identity, and the last-seen continuation cursor.
//! The record is written as one text document; decoding is proved to
//! reproduce the record exactly.

use vstd::prelude::*;

use crate::codec::{
    append_field, append_opt_field, opt_view, parse_field_at, parse_opt_field_at,
    lemma_parse_emit, lemma_parse_emit_opt, spec_emit_opt, spec_emit_str, spec_parse_opt,
    spec_parse_str,
};

verus! {

/// Location and secret of the client's local encrypted store. The pair is
/// generated together at fresh login and never reused across identities.
pub struct ClientStoreConfig {
    pub store_path: String,
    pub store_passphrase: String,
}

pub struct ClientStoreConfigView {
    pub store_path: Seq<char>,
    pub store_passphrase: Seq<char>,
}

impl View for ClientStoreConfig {
    type V = ClientStoreConfigView;

    open spec fn view(&self) -> ClientStoreConfigView {
        ClientStoreConfigView {
            store_path: self.store_path@,
            store_passphrase: self.store_passphrase@,
        }
    }
}

/// The authenticated identity and its tokens, as plain values.
pub struct MatrixSessionData {
    pub user_id: String,
    pub device_id: String,
    pub access_token: String,
    pub refresh_token: Option<String>,
}

pub struct MatrixSessionDataView {
    pub user_id: Seq<char>,
    pub device_id: Seq<char>,
    pub access_token: Seq<char>,
    pub refresh_token: Option<Seq<char>>,
}

impl View for MatrixSessionData {
    type V = MatrixSessionDataView;

    open spec fn view(&self) -> MatrixSessionDataView {
        MatrixSessionDataView {
            user_id: self.user_id@,
            device_id: self.device_id@,
            access_token: self.access_token@,
            refresh_token: opt_view(self.refresh_token),
        }
    }
}

/// Everything persisted for one session. The cursor is absent right after a
/// fresh login and is advanced only after an acknowledged sync cycle.
pub struct PersistedSession {
    pub client_store_config: ClientStoreConfig,
    pub matrix_session: MatrixSessionData,
    pub sync_token: Option<String>,
}

pub struct PersistedSessionView {
    pub client_store_config: ClientStoreConfigView,
    pub matrix_session: MatrixSessionDataView,
    pub sync_token: Option<Seq<char>>,
}

impl View for PersistedSession {
    type V = PersistedSessionView;

    open spec fn view(&self) -> PersistedSessionView {
        PersistedSessionView {
            client_store_config: self.client_store_config@,
            matrix_session: self.matrix_session@,
            sync_token: opt_view(self.sync_token),
        }
    }
}

/// The document that a session record is written as: its five strings and two
/// optional strings, in a fixed order.
pub open spec fn spec_encode_session(v: PersistedSessionView) -> Seq<char> {
    spec_emit_str(v.client_store_config.store_path)
        + spec_emit_str(v.client_store_config.store_passphrase)
        + spec_emit_str(v.matrix_session.user_id)
        + spec_emit_str(v.matrix_session.device_id)
        + spec_emit_str(v.matrix_session.access_token)
        + spec_emit_opt(v.matrix_session.refresh_token)
        + spec_emit_opt(v.sync_token)
}

/// The record a document denotes: each field in order, with nothing left
/// over; any malformed document denotes no record.
pub open spec fn spec_decode_session(s: Seq<char>) -> Option<PersistedSessionView> {
    match spec_parse_str(s, 0) {
        Option::None => Option::None,
        Option::Some((store_path, i1)) => match spec_parse_str(s, i1) {
            Option::None => Option::None,
            Option::Some((store_passphrase, i2)) => match spec_parse_str(s, i2) {
                Option::None => Option::None,
                Option::Some((user_id, i3)) => match spec_parse_str(s, i3) {
                    Option::None => Option::None,
                    Option::Some((device_id, i4)) => match spec_parse_str(s, i4) {
                        Option::None => Option::None,
                        Option::Some((access_token, i5)) => match spec_parse_opt(s, i5) {
                            Option::None => Option::None,
                            Option::Some((refresh_token, i6)) => match spec_parse_opt(s, i6) {
                                Option::None => Option::None,
                                Option::Some((sync_token, i7)) => if i7 == s.len() {
                                    Option::Some(PersistedSessionView {
                                        client_store_config: ClientStoreConfigView {
                                            store_path,
                                            store_passphrase,
                                        },
                                        matrix_session: MatrixSessionDataView {
                                            user_id,
                                            device_id,
                                            access_token,
                                            refresh_token,
                                        },
                                        sync_token,
                                    })
                                } else {
                                    Option::None
                                },
                            },
                        },
                    },
                },
            },
        },
    }
}

/// Writes the session record as one document.
pub fn encode_session(session: &PersistedSession) -> (r: String)
    ensures
        r@ == spec_encode_session(session@),
{
    let mut out = String::new();
    append_field(&mut out, session.client_store_config.store_path.as_str());
    append_field(&mut out, session.client_store_config.store_passphrase.as_str());
    append_field(&mut out, session.matrix_session.user_id.as_str());
    append_field(&mut out, session.matrix_session.device_id.as_str());
    append_field(&mut out, session.matrix_session.access_token.as_str());
    append_opt_field(&mut out, &session.matrix_session.refresh_token);
    append_opt_field(&mut out, &session.sync_token);
    proof {
        assert(out@ =~= spec_encode_session(session@));
    }
    out
}

/// Reads a session record back from a document, exactly as the decoding
/// function says: the record, or nothing for a malformed document.
pub fn decode_session(s: &str) -> (r: Option<PersistedSession>)
    ensures
        match r {
            Option::Some(session) => spec_decode_session(s@) == Option::Some(session@),
            Option::None => spec_decode_session(s@) is None,
        },
{
    let total = s.unicode_len();
    let (store_path, i1) = match parse_field_at(s, 0) {
        Option::None => { return Option::None; },
        Option::Some(x) => x,
    };
    let (store_passphrase, i2) = match parse_field_at(s, i1) {
        Option::None => { return Option::None; },
        Option::Some(x) => x,
    };
    let (user_id, i3) = match parse_field_at(s, i2) {
        Option::None => { return Option::None; },
        Option::Some(x) => x,
    };
    let (device_id, i4) = match parse_field_at(s, i3) {
        Option::None => { return Option::None; },
        Option::Some(x) => x,
    };
    let (access_token, i5) = match parse_field_at(s, i4) {
        Option::None => { return Option::None; },
        Option::Some(x) => x,
    };
    let (refresh_token, i6) = match parse_opt_field_at(s, i5) {
        Option::None => { return Option::None; },
        Option::Some(x) => x,
    };
    let (sync_token, i7) = match parse_opt_field_at(s, i6) {
        Option::None => { return Option::None; },
        Option::Some(x) => x,
    };
    if i7 != total {
        return Option::None;
    }
    Option::Some(PersistedSession {
        client_store_config: ClientStoreConfig { store_path, store_passphrase },
        matrix_session: MatrixSessionData { user_id, device_id, access_token, refresh_token },
        sync_token,
    })
}

/// A full save-then-load round trip of a session record through the store's
/// document format reproduces an identical record: store location and secret,
/// identity, tokens, and cursor.
pub proof fn lemma_session_round_trip(v: PersistedSessionView)
    ensures
        spec_decode_session(spec_encode_session(v)) == Option::Some(v),
{
    let e1 = spec_emit_str(v.client_store_config.store_path);
    let e2 = spec_emit_str(v.client_store_config.store_passphrase);
    let e3 = spec_emit_str(v.matrix_session.user_id);
    let e4 = spec_emit_str(v.matrix_session.device_id);
    let e5 = spec_emit_str(v.matrix_session.access_token);
    let e6 = spec_emit_opt(v.matrix_session.refresh_token);
    let e7 = spec_emit_opt(v.sync_token);
    let s = spec_encode_session(v);
    let p1 = e1.len() as int;
    let p2 = p1 + e2.len();
    let p3 = p2 + e3.len();
    let p4 = p3 + e4.len();
    let p5 = p4 + e5.len();
    let p6 = p5 + e6.len();
    let p7 = p6 + e7.len();
    assert(s.len() == p7);

    assert(s.subrange(0, p1) =~= e1);
    lemma_parse_emit(s, 0, v.client_store_config.store_path);
    assert(s.subrange(p1, p2) =~= e2);
    lemma_parse_emit(s, p1, v.client_store_config.store_passphrase);
    assert(s.subrange(p2, p3) =~= e3);
    lemma_parse_emit(s, p2, v.matrix_session.user_id);
    assert(s.subrange(p3, p4) =~= e4);
    lemma_parse_emit(s, p3, v.matrix_session.device_id);
    assert(s.subrange(p4, p5) =~= e5);
    lemma_parse_emit(s, p4, v.matrix_session.access_token);
    assert(s.subrange(p5, p6) =~= e6);
    lemma_parse_emit_opt(s, p5, v.matrix_session.refresh_token);
    assert(s.subrange(p6, p7) =~= e7);
    lemma_parse_emit_opt(s, p6, v.sync_token);
}

} // verus!
