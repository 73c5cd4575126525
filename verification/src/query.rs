//! The compositor's answers, turned into window records, monitor geometry,
//! the current desktop and the active window.

use crate::hex::{hex_address, hex_string, parse_hex_to_u64, parsed_hex};
use crate::numeral::{ascii_text, decimal_digits, decimal_string};
use crate::json::{elements, parse_json, json_document, Json, JsonModel};
use crate::window::{window_models, Window, WindowModel, WindowRecord};
use vstd::prelude::*;
use vstd::string::StringExecFns;
use vstd::utf8::{decode_utf8, valid_utf8};

verus! {

/// The size of the first monitor, in pixels.
#[derive(Clone, Copy, Debug, PartialEq, Eq, Structural)]
pub struct MonitorGeometry {
    pub width: u32,
    pub height: u32,
}

/// The geometry `g` as text: width, the letter `x`, height.
pub open spec fn geometry_label(g: MonitorGeometry) -> Seq<char> {
    ascii_text(decimal_digits(g.width as nat)) + seq!['x'] + ascii_text(decimal_digits(g.height as nat))
}

impl MonitorGeometry {
    /// The geometry as text: width, the letter `x`, height.
    pub fn label(&self) -> (r: String)
        ensures
            r@ == geometry_label(*self),
    {
        proof {
            reveal_strlit("x");
        }
        let height = decimal_string(self.height as u64);
        let r = decimal_string(self.width as u64).concat("x").concat(height.as_str());
        assert("x"@ =~= seq!['x']);
        r
    }
}

/// Why a query gave no usable document.
#[derive(Clone, Copy, Debug, PartialEq, Eq, Structural)]
pub enum QueryFailure {
    /// The query could not be run.
    NotRun,
    /// The answer is not UTF-8 text.
    NotUtf8,
    /// The answer is not JSON.
    NotJson,
    /// The document lacks what the engine needs of it.
    UnexpectedShape,
}

/// A failure of one of the two queries that the engine cannot do without.
#[derive(Clone, Copy, Debug, PartialEq, Eq, Structural)]
pub enum QueryError {
    Monitors(QueryFailure),
    Clients(QueryFailure),
}

/// The low 32 bits of `n`.
pub open spec fn low_u32(n: u64) -> u32 {
    (n % 0x1_0000_0000) as u32
}

/// The member `key` of `v`, where it is an unsigned integer.
pub open spec fn field_u64(v: JsonModel, key: Seq<char>) -> Option<u64> {
    match v.get(key) {
        Some(f) => f.as_u64(),
        None => None,
    }
}

/// The member `key` of `v`, where it is a string.
pub open spec fn field_text(v: JsonModel, key: Seq<char>) -> Option<Seq<char>> {
    match v.get(key) {
        Some(f) => f.as_text(),
        None => None,
    }
}

/// The geometry that the monitor list `doc` gives: the width and height of
/// its first monitor. Nothing where `doc` is no array, is empty, or its
/// first monitor lacks one of the two.
pub open spec fn geometry_of(doc: JsonModel) -> Option<MonitorGeometry> {
    match doc.as_array() {
        Some(monitors) => if monitors.len() == 0 {
            None
        } else {
            match (field_u64(monitors[0], "width"@), field_u64(monitors[0], "height"@)) {
                (Some(w), Some(h)) => Some(MonitorGeometry { width: low_u32(w), height: low_u32(h) }),
                _ => None,
            }
        },
        None => None,
    }
}

/// The id of the workspace that the client `client` stands on.
pub open spec fn workspace_of(client: JsonModel) -> Option<u64> {
    match client.get("workspace"@) {
        Some(ws) => field_u64(ws, "id"@),
        None => None,
    }
}

/// The window that the client entry `client` describes. Nothing where its
/// address, workspace id, title or class is missing or malformed.
pub open spec fn client_window(client: JsonModel) -> Option<WindowModel> {
    match field_text(client, "address"@) {
        Some(address) => match (
            parsed_hex(address),
            workspace_of(client),
            field_text(client, "title"@),
            field_text(client, "class"@),
        ) {
            (Some(id), Some(ws), Some(title), Some(class)) => Some(
                WindowModel { id, desktop_id: low_u32(ws), title, class },
            ),
            _ => None,
        },
        None => None,
    }
}

/// The windows that the client entries `clients` describe, in their order;
/// an entry that describes none is passed over.
pub open spec fn client_windows(clients: Seq<JsonModel>) -> Seq<WindowModel>
    decreases clients.len(),
{
    if clients.len() == 0 {
        Seq::empty()
    } else {
        let rest = client_windows(clients.drop_last());
        match client_window(clients.last()) {
            Some(w) => rest.push(w),
            None => rest,
        }
    }
}

/// The windows that the client list `doc` gives; nothing where `doc` is no
/// array.
pub open spec fn windows_of(doc: JsonModel) -> Option<Seq<WindowModel>> {
    match doc.as_array() {
        Some(clients) => Some(client_windows(clients)),
        None => None,
    }
}

/// The current desktop that the document `doc` gives, 0 where it gives none.
pub open spec fn desktop_of(doc: Option<JsonModel>) -> u32 {
    match doc {
        Some(d) => match field_u64(d, "id"@) {
            Some(n) => low_u32(n),
            None => 0,
        },
        None => 0,
    }
}

/// The active window that the document `doc` gives, 0 where it gives none.
pub open spec fn active_of(doc: Option<JsonModel>) -> u64 {
    match doc {
        Some(d) => match field_text(d, "address"@) {
            Some(address) => match parsed_hex(address) {
                Some(id) => id,
                None => 0,
            },
            None => 0,
        },
        None => 0,
    }
}

/// The document in the answer `output` to a query: `None` stands for a
/// query that could not be run.
pub open spec fn document_of(output: Option<Seq<u8>>) -> Result<JsonModel, QueryFailure> {
    match output {
        None => Err(QueryFailure::NotRun),
        Some(bytes) => if !valid_utf8(bytes) {
            Err(QueryFailure::NotUtf8)
        } else {
            match json_document(decode_utf8(bytes)) {
                Some(doc) => Ok(doc),
                None => Err(QueryFailure::NotJson),
            }
        },
    }
}

/// The document of an answer that the engine can do without.
pub open spec fn optional_document(output: Option<Seq<u8>>) -> Option<JsonModel> {
    match document_of(output) {
        Ok(doc) => Some(doc),
        Err(_) => None,
    }
}

/// What the four answers of the compositor amount to: the windows, the
/// geometry, the current desktop and the active window. The monitor list is
/// judged first, then the client list; a failure of either fails the whole.
/// The other two answers give 0 where they fail.
pub open spec fn wm_data(
    monitors: Option<Seq<u8>>,
    clients: Option<Seq<u8>>,
    workspace: Option<Seq<u8>>,
    window: Option<Seq<u8>>,
) -> Result<(Seq<WindowModel>, MonitorGeometry, u32, u64), QueryError> {
    match document_of(monitors) {
        Err(e) => Err(QueryError::Monitors(e)),
        Ok(monitor_doc) => match geometry_of(monitor_doc) {
            None => Err(QueryError::Monitors(QueryFailure::UnexpectedShape)),
            Some(geometry) => match document_of(clients) {
                Err(e) => Err(QueryError::Clients(e)),
                Ok(client_doc) => match windows_of(client_doc) {
                    None => Err(QueryError::Clients(QueryFailure::UnexpectedShape)),
                    Some(wins) => Ok(
                        (
                            wins,
                            geometry,
                            desktop_of(optional_document(workspace)),
                            active_of(optional_document(window)),
                        ),
                    ),
                },
            },
        },
    }
}

/// The two answers that the engine can do without never fail the whole:
/// whatever they are, the windows and the geometry are the same, and so is
/// the failure, if there is one.
pub proof fn lemma_optional_answers_never_fail(
    monitors: Option<Seq<u8>>,
    clients: Option<Seq<u8>>,
    workspace: Option<Seq<u8>>,
    window: Option<Seq<u8>>,
    other_workspace: Option<Seq<u8>>,
    other_window: Option<Seq<u8>>,
)
    ensures
        match (
            wm_data(monitors, clients, workspace, window),
            wm_data(monitors, clients, other_workspace, other_window),
        ) {
            (Ok(a), Ok(b)) => a.0 == b.0 && a.1 == b.1,
            (Err(e), Err(f)) => e == f,
            _ => false,
        },
        wm_data(monitors, clients, None, None) matches Ok(data) ==> data.2 == 0 && data.3 == 0,
{
}

/// The client list gives no window that none of its entries describes, and
/// loses none that an entry describes.
pub proof fn lemma_client_windows_members(clients: Seq<JsonModel>)
    ensures
        client_windows(clients).len() <= clients.len(),
        forall|i: int|
            0 <= i < client_windows(clients).len() ==> exists|j: int|
                0 <= j < clients.len() && client_window(#[trigger] clients[j]) == Some(
                    #[trigger] client_windows(clients)[i],
                ),
        forall|j: int|
            0 <= j < clients.len() && (#[trigger] client_window(clients[j])) is Some
                ==> client_windows(clients).contains(client_window(clients[j])->Some_0),
    decreases clients.len(),
{
    let out = client_windows(clients);
    if clients.len() > 0 {
        let head = clients.drop_last();
        let rest = client_windows(head);
        lemma_client_windows_members(head);
        assert forall|i: int| 0 <= i < out.len() implies exists|j: int|
            0 <= j < clients.len() && client_window(#[trigger] clients[j]) == Some(#[trigger] out[i]) by {
            if i < rest.len() {
                assert(out[i] == rest[i]);
                let j = choose|j: int|
                    0 <= j < head.len() && client_window(#[trigger] head[j]) == Some(rest[i]);
                assert(clients[j] == head[j]);
            } else {
                assert(client_window(clients[clients.len() - 1]) == Some(out[i]));
            }
        }
        assert forall|j: int|
            0 <= j < clients.len() && (#[trigger] client_window(clients[j])) is Some implies out.contains(
            client_window(clients[j])->Some_0,
        ) by {
            let w = client_window(clients[j])->Some_0;
            if j < head.len() {
                assert(head[j] == clients[j]);
                let k = choose|k: int| 0 <= k < rest.len() && rest[k] == w;
                assert(out[k] == w);
            } else {
                assert(out[out.len() - 1] == w);
            }
        }
    }
}

/// The view of an optional slice.
pub open spec fn bytes_of(output: Option<&[u8]>) -> Option<Seq<u8>> {
    match output {
        Some(b) => Some(b@),
        None => None,
    }
}

/// The view of an optional document.
pub open spec fn model_of(doc: Option<&Json>) -> Option<JsonModel> {
    match doc {
        Some(d) => Some(d@),
        None => None,
    }
}

/// Reads bytes as UTF-8 text with `core::str::from_utf8`: there is a text
/// exactly where the bytes are valid UTF-8, and it is what they decode to.
#[verifier::external_body]
fn utf8_text(bytes: &[u8]) -> (r: Option<&str>)
    ensures
        r is Some <==> valid_utf8(bytes@),
        r matches Some(s) ==> s@ == decode_utf8(bytes@),
{
    std::str::from_utf8(bytes).ok()
}

/// The low 32 bits of `n`.
pub fn truncate_u32(n: u64) -> (r: u32)
    ensures
        r == low_u32(n),
{
    (n % 0x1_0000_0000) as u32
}

/// The member `key` of `v`, where it is an unsigned integer.
fn u64_field(v: &Json, key: &str) -> (r: Option<u64>)
    ensures
        r == field_u64(v@, key@),
{
    match v.get(key) {
        Some(f) => f.as_u64(),
        None => None,
    }
}

/// The member `key` of `v`, where it is a string.
fn text_field<'a>(v: &'a Json, key: &str) -> (r: Option<&'a str>)
    ensures
        match r {
            Some(s) => field_text(v@, key@) == Some(s@),
            None => field_text(v@, key@) is None,
        },
{
    match v.get(key) {
        Some(f) => f.as_str(),
        None => None,
    }
}

/// Reads the geometry of the first monitor from the monitor list.
pub fn monitor_geometry(doc: &Json) -> (r: Option<MonitorGeometry>)
    ensures
        r == geometry_of(doc@),
{
    match doc.as_array() {
        Some(monitors) => {
            if monitors.len() == 0 {
                return None;
            }
            let first = &monitors[0];
            assert(elements(monitors@)[0] == first@);
            match (u64_field(first, "width"), u64_field(first, "height")) {
                (Some(w), Some(h)) => Some(
                    MonitorGeometry { width: truncate_u32(w), height: truncate_u32(h) },
                ),
                _ => None,
            }
        },
        None => None,
    }
}

/// Reads one client entry as a window record.
pub fn client_record(client: &Json) -> (r: Option<WindowRecord>)
    ensures
        match r {
            Some(w) => client_window(client@) == Some(w@),
            None => client_window(client@) is None,
        },
{
    let address = match text_field(client, "address") {
        Some(a) => a,
        None => {
            return None;
        },
    };
    let id = match parse_hex_to_u64(address) {
        Some(id) => id,
        None => {
            return None;
        },
    };
    let workspace = match client.get("workspace") {
        Some(ws) => match u64_field(ws, "id") {
            Some(n) => n,
            None => {
                return None;
            },
        },
        None => {
            return None;
        },
    };
    let title = match text_field(client, "title") {
        Some(t) => t,
        None => {
            return None;
        },
    };
    let class = match text_field(client, "class") {
        Some(c) => c,
        None => {
            return None;
        },
    };
    Some(
        WindowRecord {
            id,
            desktop_id: truncate_u32(workspace),
            title: String::from_str(title),
            class: String::from_str(class),
        },
    )
}

/// Reads the client list as window records, in its order. An entry that is
/// missing a field, or holds a malformed one, is passed over.
pub fn client_records(doc: &Json) -> (r: Option<Vec<WindowRecord>>)
    ensures
        match r {
            Some(wins) => windows_of(doc@) == Some(window_models(wins@)),
            None => windows_of(doc@) is None,
        },
{
    match doc.as_array() {
        Some(clients) => {
            let ghost all = elements(clients@);
            let mut wins: Vec<WindowRecord> = Vec::new();
            let mut i: usize = 0;
            assert(all.take(0) =~= Seq::<JsonModel>::empty());
            assert(window_models(wins@) =~= Seq::<WindowModel>::empty());
            while i < clients.len()
                invariant
                    i <= clients.len(),
                    all == elements(clients@),
                    window_models(wins@) == client_windows(all.take(i as int)),
                decreases clients.len() - i,
            {
                assert(all.take(i + 1).drop_last() =~= all.take(i as int));
                assert(all.take(i + 1).last() == clients@[i as int]@);
                match client_record(&clients[i]) {
                    Some(w) => {
                        let ghost before = window_models(wins@);
                        let ghost model = w@;
                        wins.push(w);
                        assert(window_models(wins@) =~= before.push(model));
                    },
                    None => {},
                }
                i += 1;
            }
            assert(all.take(clients.len() as int) =~= all);
            Some(wins)
        },
        None => None,
    }
}

/// Reads the current desktop from the active-workspace document; 0 where
/// there is no document or it gives no id.
pub fn current_desktop(doc: Option<&Json>) -> (r: u32)
    ensures
        r == desktop_of(model_of(doc)),
{
    match doc {
        Some(d) => match u64_field(d, "id") {
            Some(n) => truncate_u32(n),
            None => 0,
        },
        None => 0,
    }
}

/// Reads the active window from the active-window document; 0 where there
/// is no document or it gives no readable address.
pub fn active_window(doc: Option<&Json>) -> (r: Window)
    ensures
        r == active_of(model_of(doc)),
{
    match doc {
        Some(d) => match text_field(d, "address") {
            Some(address) => match parse_hex_to_u64(address) {
                Some(id) => id,
                None => 0,
            },
            None => 0,
        },
        None => 0,
    }
}

/// Reads the answer to one query as a JSON document.
pub fn document(output: Option<&[u8]>) -> (r: Result<Json, QueryFailure>)
    ensures
        match r {
            Ok(doc) => document_of(bytes_of(output)) == Ok::<JsonModel, QueryFailure>(doc@),
            Err(e) => document_of(bytes_of(output)) == Err::<JsonModel, QueryFailure>(e),
        },
{
    let bytes = match output {
        Some(b) => b,
        None => {
            return Err(QueryFailure::NotRun);
        },
    };
    let text = match utf8_text(bytes) {
        Some(t) => t,
        None => {
            return Err(QueryFailure::NotUtf8);
        },
    };
    match parse_json(text) {
        Some(doc) => Ok(doc),
        None => Err(QueryFailure::NotJson),
    }
}

/// Turns the compositor's four answers into the data of a session: the
/// windows in the compositor's order, the geometry of the first monitor,
/// the current desktop and the active window. Each argument is what the
/// query wrote, or `None` where it could not be run.
pub fn get_wm_data(
    monitors: Option<&[u8]>,
    clients: Option<&[u8]>,
    workspace: Option<&[u8]>,
    window: Option<&[u8]>,
) -> (r: Result<(Vec<WindowRecord>, MonitorGeometry, u32, Window), QueryError>)
    ensures
        match r {
            Ok(data) => wm_data(bytes_of(monitors), bytes_of(clients), bytes_of(workspace), bytes_of(window))
                == Ok::<(Seq<WindowModel>, MonitorGeometry, u32, u64), QueryError>(
                (window_models(data.0@), data.1, data.2, data.3),
            ),
            Err(e) => wm_data(bytes_of(monitors), bytes_of(clients), bytes_of(workspace), bytes_of(window))
                == Err::<(Seq<WindowModel>, MonitorGeometry, u32, u64), QueryError>(e),
        },
{
    let monitor_doc = match document(monitors) {
        Ok(doc) => doc,
        Err(e) => {
            return Err(QueryError::Monitors(e));
        },
    };
    let geometry = match monitor_geometry(&monitor_doc) {
        Some(g) => g,
        None => {
            return Err(QueryError::Monitors(QueryFailure::UnexpectedShape));
        },
    };
    let client_doc = match document(clients) {
        Ok(doc) => doc,
        Err(e) => {
            return Err(QueryError::Clients(e));
        },
    };
    let wins = match client_records(&client_doc) {
        Some(w) => w,
        None => {
            return Err(QueryError::Clients(QueryFailure::UnexpectedShape));
        },
    };
    let desktop = match document(workspace) {
        Ok(doc) => current_desktop(Some(&doc)),
        Err(_) => current_desktop(None),
    };
    let active = match document(window) {
        Ok(doc) => active_window(Some(&doc)),
        Err(_) => active_window(None),
    };
    Ok((wins, geometry, desktop, active))
}

/// The last word of the command that focuses the window `win`: the word
/// `address:` and the window's address.
pub open spec fn focus_target(win: u64) -> Seq<char> {
    seq!['a', 'd', 'd', 'r', 'e', 's', 's', ':'] + hex_address(win)
}

/// The words that tell the compositor to focus the window `win`, for the
/// caller to send.
pub fn go_to_window(win: Window) -> (r: Vec<String>)
    ensures
        r@.len() == 3,
        r@[0]@ == "dispatch"@,
        r@[1]@ == "focuswindow"@,
        r@[2]@ == focus_target(win),
{
    proof {
        reveal_strlit("address:0x");
    }
    let target = String::from_str("address:0x").concat(hex_string(win).as_str());
    assert(target@ =~= focus_target(win));
    let mut words: Vec<String> = Vec::new();
    words.push(String::from_str("dispatch"));
    words.push(String::from_str("focuswindow"));
    words.push(target);
    words
}

} // verus!
