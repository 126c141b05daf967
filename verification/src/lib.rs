//! Native backend logic for a desktop shell application: parsing of
//! Server-Sent-Events streams, the reconnecting listener state machine with
//! cooperative cancellation, HTTP proxy response envelopes, and planning of
//! secondary-webview commands.

mod frames;
mod listener;
mod numfmt;
mod proxy;
mod views;

pub use frames::concat_all;
pub use frames::drain;
pub use frames::drain_all;
pub use frames::find_lf;
pub use frames::find_sep;
pub use frames::frame_datas;
pub use frames::frame_events;
pub use frames::frame_payload;
pub use frames::join_nl;
pub use frames::lemma_drain_append;
pub use frames::lemma_drain_rest_no_sep;
pub use frames::lemma_rechunking;
pub use frames::line_data;
pub use frames::parse_frame;
pub use frames::sep_at;
pub use frames::SseParser;
pub use listener::lemma_second_start_supersedes;
pub use listener::lemma_start_issues_fresh;
pub use listener::status_message;
pub use listener::ListenerSlot;
pub use listener::SseListener;
pub use listener::SseState;
pub use listener::BAD_STATUS_DELAY_MS;
pub use listener::RETRY_DELAY_MS;
pub use numfmt::dec_digits;
pub use numfmt::u16_to_decimal;
pub use proxy::ascii_upper;
pub use proxy::envelope_bytes;
pub use proxy::esc_byte;
pub use proxy::esc_bytes;
pub use proxy::hex_digit;
pub use proxy::method_kind;
pub use proxy::method_of;
pub use proxy::proxy_envelope;
pub use proxy::update_payload;
pub use proxy::update_payload_bytes;
pub use proxy::upper_bytes;
pub use proxy::HttpMethod;
pub use views::apply_close;
pub use views::apply_open;
pub use views::apply_resize;
pub use views::lemma_close_unknown_label;
pub use views::lemma_reopen_same_label;
pub use views::plan_close;
pub use views::plan_open;
pub use views::plan_resize;
pub use views::url_well_formed;
pub use views::CmdError;
pub use views::OpenPlan;
pub use views::ViewGeom;
