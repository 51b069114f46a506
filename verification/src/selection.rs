//! The selection arbiter's strategy and its request-scoped context.
//!
//! Which device a discovery request settles on is decided by a
//! pluggable arbiter, chosen when the session is built: the built-in
//! first-match rule, or a native dialog driven by the embedding
//! application. The dialog's own waiting — window, events, timeout —
//! is the application's; its configuration and the first-match rule
//! are decided here.

use vstd::prelude::*;

use crate::models::{BluetoothDevice, RequestDeviceOptions};

verus! {

/// The default time a selection dialog waits for an answer, in
/// milliseconds.
pub const SELECTION_RESPONSE_TIMEOUT_MS: u64 = 30000;

/// Configuration of the native selection dialog: its own response
/// timeout (independent of the scan timeout), and whether it wants
/// the scan to complete before it opens.
#[derive(Debug, PartialEq, Eq, Structural)]
pub struct NativeDialogSelectionHandler {
    pub response_timeout_ms: u64,
    pub full_scan_before_dialog: bool,
}

impl NativeDialogSelectionHandler {
    /// The default dialog configuration: a 30 s response timeout, no
    /// full scan before opening.
    pub fn new() -> (r: NativeDialogSelectionHandler)
        ensures
            r.response_timeout_ms == SELECTION_RESPONSE_TIMEOUT_MS,
            !r.full_scan_before_dialog,
    {
        NativeDialogSelectionHandler {
            response_timeout_ms: SELECTION_RESPONSE_TIMEOUT_MS,
            full_scan_before_dialog: false,
        }
    }

    /// Replaces the response timeout, in milliseconds.
    pub fn with_response_timeout(self, timeout_ms: u64) -> (r: NativeDialogSelectionHandler)
        ensures
            r.response_timeout_ms == timeout_ms,
            r.full_scan_before_dialog == self.full_scan_before_dialog,
    {
        NativeDialogSelectionHandler { response_timeout_ms: timeout_ms, ..self }
    }

    /// Chooses between streaming updates into an open dialog and
    /// scanning to completion before the dialog opens.
    pub fn require_full_scan_before_dialog(self, enabled: bool) -> (r:
        NativeDialogSelectionHandler)
        ensures
            r.full_scan_before_dialog == enabled,
            r.response_timeout_ms == self.response_timeout_ms,
    {
        NativeDialogSelectionHandler { full_scan_before_dialog: enabled, ..self }
    }

    /// Whether this dialog wants the exhaustive scan policy.
    pub fn wants_full_scan(&self) -> (r: bool)
        ensures
            r == self.full_scan_before_dialog,
    {
        self.full_scan_before_dialog
    }
}

impl Default for NativeDialogSelectionHandler {
    /// Same as [`NativeDialogSelectionHandler::new`].
    fn default() -> (r: NativeDialogSelectionHandler)
        ensures
            r.response_timeout_ms == SELECTION_RESPONSE_TIMEOUT_MS,
            !r.full_scan_before_dialog,
    {
        NativeDialogSelectionHandler::new()
    }
}

/// The selection strategy a session is built with.
#[derive(Debug, PartialEq, Eq, Structural)]
pub enum SelectionStrategy {
    /// Resolve immediately to the first candidate; no interaction.
    FirstMatch,
    /// Present the candidates in a native dialog with the given
    /// configuration.
    NativeDialog(NativeDialogSelectionHandler),
}

impl SelectionStrategy {
    /// Whether the strategy wants the exhaustive scan policy rather
    /// than streaming.
    pub fn wants_full_scan(&self) -> (r: bool)
        ensures
            r == (self matches SelectionStrategy::NativeDialog(h) && h.full_scan_before_dialog),
    {
        match self {
            SelectionStrategy::FirstMatch => false,
            SelectionStrategy::NativeDialog(h) => h.full_scan_before_dialog,
        }
    }
}

/// The first-match rule: the first candidate wins; no candidate means
/// no selection.
pub fn first_match_select(devices: &Vec<BluetoothDevice>) -> (r: Option<String>)
    ensures
        match r {
            Some(id) => devices@.len() > 0 && id@ == devices@[0]@.id,
            None => devices@.len() == 0,
        },
{
    if devices.len() > 0 {
        Some(devices[0].id.clone())
    } else {
        None
    }
}

/// One request's immutable snapshot for the arbiter: the options, the
/// candidates so far, and the identifiers of the channels the dialog
/// listens and answers on.
#[derive(Debug)]
pub struct DeviceSelectionContext {
    pub options: RequestDeviceOptions,
    pub devices: Vec<BluetoothDevice>,
    pub selection_event: String,
    pub update_event: String,
    pub window_label: String,
    pub initial_scanning: bool,
}

/// The per-request event a dialog answers the selection on.
pub fn selection_event_name(request_id: &str) -> (r: String)
    ensures
        r@ == "web-bluetooth://select-bluetooth-device/"@ + request_id@,
{
    let mut r = String::from_str("web-bluetooth://select-bluetooth-device/");
    r.append(request_id);
    r
}

/// The per-request event candidate-list updates stream out on.
pub fn update_event_name(selection_event: &str) -> (r: String)
    ensures
        r@ == selection_event@ + "devices"@,
{
    let mut r = String::from_str(selection_event);
    r.append("devices");
    r
}

/// The label of the per-request selection window.
pub fn selection_window_label(request_id: &str) -> (r: String)
    ensures
        r@ == "web-bluetooth-selector-"@ + request_id@,
{
    let mut r = String::from_str("web-bluetooth-selector-");
    r.append(request_id);
    r
}

/// The event characteristic value-changed payloads are emitted on.
pub fn notification_event_name() -> (r: &'static str)
    ensures
        r@ == "web-bluetooth://characteristic-value-changed"@,
{
    "web-bluetooth://characteristic-value-changed"
}

/// The event disconnect notices are emitted on.
pub fn gatt_disconnected_event_name() -> (r: &'static str)
    ensures
        r@ == "web-bluetooth://gattserver-disconnected"@,
{
    "web-bluetooth://gattserver-disconnected"
}

} // verus!
