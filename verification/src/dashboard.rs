//! What the main window shows: the connection clock, the connect button,
//! the profile rows and their avatar colours, and the profile selection.

use vstd::prelude::*;
use vstd::utf8::encode_utf8;
use crate::events::{status_label, ConnectionStatus};
use crate::profile::{has_id, is_first_with_id, EditForm, Profile, ProfileStore, not_found_message};
use crate::session::Session;
use crate::text::{decimal, push_char, push_decimal};

verus! {

/// A number printed with at least two digits, a leading zero added below ten.
pub open spec fn two_digits(n: nat) -> Seq<char> {
    if n < 10 {
        seq!['0'] + decimal(n)
    } else {
        decimal(n)
    }
}

/// `HH:MM:SS` for a number of seconds; the hours take more digits past 99.
pub open spec fn hms(total: nat) -> Seq<char> {
    two_digits(total / 3600) + seq![':'] + two_digits((total % 3600) / 60) + seq![':'] + two_digits(
        total % 60,
    )
}

fn push_two_digits(s: &mut String, n: u64)
    ensures
        final(s)@ == old(s)@ + two_digits(n as nat),
{
    if n < 10 {
        push_char(s, '0');
    }
    push_decimal(s, n);
    assert(old(s)@ + two_digits(n as nat) =~= (if n < 10 { old(s)@.push('0') } else { old(s)@ }) + decimal(n as nat));
}

/// Formats a duration in whole seconds as `HH:MM:SS`.
pub fn format_hms(total_secs: u64) -> (s: String)
    ensures
        s@ == hms(total_secs as nat),
{
    let mut s = String::new();
    push_two_digits(&mut s, total_secs / 3600);
    push_char(&mut s, ':');
    push_two_digits(&mut s, (total_secs % 3600) / 60);
    push_char(&mut s, ':');
    push_two_digits(&mut s, total_secs % 60);
    assert(s@ =~= hms(total_secs as nat));
    s
}

/// The sum of some bytes.
pub open spec fn byte_sum(b: Seq<u8>) -> nat
    decreases b.len(),
{
    if b.len() == 0 {
        0
    } else {
        byte_sum(b.drop_last()) + b.last() as nat
    }
}

/// The number of avatar colours.
pub const AVATAR_COLOURS: usize = 5;

/// The avatar colour of a profile: the sum of the bytes of its id, in
/// UTF-8, modulo the number of colours.
pub open spec fn avatar_slot(id: Seq<char>) -> nat {
    byte_sum(encode_utf8(id)) % (AVATAR_COLOURS as nat)
}

/// A sum over some bytes is at most the sum over more of them.
proof fn lemma_prefix_sum_le(b: Seq<u8>, k: int)
    requires
        0 <= k <= b.len(),
    ensures
        byte_sum(b.take(k)) <= byte_sum(b),
    decreases b.len() - k,
{
    if k < b.len() {
        lemma_prefix_sum_le(b, k + 1);
        assert(b.take(k + 1).drop_last() =~= b.take(k));
    } else {
        assert(b.take(k) =~= b);
    }
}

/// The index of the avatar colour for a profile id. The byte sum is kept
/// in 32 bits, as the colour was always computed, so it must fit them.
pub fn profile_color_index(id: &str) -> (i: usize)
    requires
        byte_sum(encode_utf8(id@)) <= u32::MAX,
    ensures
        i as nat == avatar_slot(id@),
        i < AVATAR_COLOURS,
{
    let bytes = id.as_bytes();
    let mut sum: u32 = 0;
    let mut k: usize = 0;
    while k < bytes.len()
        invariant
            k <= bytes@.len(),
            bytes@ == encode_utf8(id@),
            byte_sum(bytes@) <= u32::MAX,
            sum as nat == byte_sum(bytes@.take(k as int)),
        decreases bytes.len() - k,
    {
        assert(bytes@.take(k + 1).drop_last() =~= bytes@.take(k as int));
        proof {
            lemma_prefix_sum_le(bytes@, k + 1);
        }
        sum = sum + bytes[k] as u32;
        k = k + 1;
    }
    assert(bytes@.take(bytes@.len() as int) =~= bytes@);
    (sum % 5) as usize
}

/// The role of the big button in the middle of the window.
#[derive(Debug, Clone, Copy, PartialEq, Eq, Structural)]
pub enum ButtonRole {
    /// The tunnel is up: the button takes it down.
    Disconnect,
    /// A worker runs: the button shows the status and cannot be clicked.
    Busy,
    /// Nothing runs: the button connects the selected profile.
    Connect,
}

/// The card at the top of the window: the clock and the connect button.
pub struct HeroCard {
    pub caption: String,
    pub clock: String,
    pub button_label: String,
    pub button: ButtonRole,
    pub button_enabled: bool,
    /// Whether to show the throughput line.
    pub show_rates: bool,
}

pub const CONNECTED_CAPTION: &'static str = "CONNECTED FOR";
pub const IDLE_CAPTION: &'static str = "CONNECTION TIME";
pub const ZERO_CLOCK: &'static str = "00:00:00";

/// What the card shows. `connected_secs` is how long ago the clock started,
/// when it runs; `has_selection` tells whether a profile is selected.
pub fn hero_card(session: &Session, has_selection: bool, connected_secs: Option<u64>) -> (c: HeroCard)
    ensures
        ({
            let connected = session.status == ConnectionStatus::Connected;
            &&& c.caption@ == (if connected { CONNECTED_CAPTION@ } else { IDLE_CAPTION@ })
            &&& c.clock@ == (match connected_secs {
                Some(t) if connected => hms(t as nat),
                _ => ZERO_CLOCK@,
            })
            &&& c.show_rates == connected
            &&& if connected {
                c.button == ButtonRole::Disconnect && c.button_label@ == "Disconnect"@ && c.button_enabled
            } else if session.worker_running {
                c.button == ButtonRole::Busy && c.button_label@ == status_label(session.status)
                    && !c.button_enabled
            } else {
                c.button == ButtonRole::Connect && c.button_label@ == "Connect"@ && c.button_enabled
                    == has_selection
            }
        }),
{
    let connected = session.status == ConnectionStatus::Connected;
    let caption = if connected {
        String::from_str(CONNECTED_CAPTION)
    } else {
        String::from_str(IDLE_CAPTION)
    };
    let clock = match connected_secs {
        Some(t) if connected => format_hms(t),
        _ => String::from_str(ZERO_CLOCK),
    };
    if connected {
        HeroCard {
            caption,
            clock,
            button_label: String::from_str("Disconnect"),
            button: ButtonRole::Disconnect,
            button_enabled: true,
            show_rates: true,
        }
    } else if session.worker_running {
        HeroCard {
            caption,
            clock,
            button_label: session.status.label(),
            button: ButtonRole::Busy,
            button_enabled: false,
            show_rates: false,
        }
    } else {
        HeroCard {
            caption,
            clock,
            button_label: String::from_str("Connect"),
            button: ButtonRole::Connect,
            button_enabled: has_selection,
            show_rates: false,
        }
    }
}

/// `{host}:{port}`, the address line under a profile's name.
pub fn host_and_port(p: &Profile) -> (s: String)
    ensures
        s@ == p.vpn_host@ + ":"@ + p.vpn_port@,
{
    let mut s = p.vpn_host.clone();
    s.append(":");
    s.append(p.vpn_port.as_str());
    s
}

/// How a profile row is drawn.
pub struct RowState {
    /// The row's profile is the selected one.
    pub is_selected: bool,
    /// The row shows "Connected" instead of a connect button.
    pub shows_connected: bool,
    /// The row's connect button can be clicked.
    pub connect_enabled: bool,
}

/// How the row of profile `id` is drawn, given the selected profile id.
pub fn profile_row(session: &Session, id: &str, selected: Option<&str>) -> (r: RowState)
    ensures
        r.is_selected == (selected matches Some(s) && s@ == id@),
        r.shows_connected == (r.is_selected && session.status == ConnectionStatus::Connected),
        r.connect_enabled == !session.worker_running,
{
    let is_selected = match selected {
        Some(s) => crate::text::str_eq(s, id),
        None => false,
    };
    RowState {
        is_selected,
        shows_connected: is_selected && session.status == ConnectionStatus::Connected,
        connect_enabled: !session.worker_running,
    }
}

/// The id of the first profile, the one selected when nothing else is.
pub fn first_profile_id(store: &ProfileStore) -> (r: Option<String>)
    ensures
        store.profiles@.len() == 0 ==> r is None,
        store.profiles@.len() > 0 ==> (r matches Some(i) && i@ == store.profiles@[0].id@),
{
    if store.profiles.len() == 0 {
        None
    } else {
        Some(store.profiles[0].id.clone())
    }
}

/// The selected profile, if the selected id names one.
pub fn selected_profile<'a>(store: &'a ProfileStore, selected: Option<&str>) -> (r: Option<&'a Profile>)
    ensures
        selected is None ==> r is None,
        selected matches Some(id) ==> (r is Some <==> has_id(store.profiles@, id@)),
        selected matches Some(id) ==> (r matches Some(p) ==> exists|i: int|
            is_first_with_id(store.profiles@, id@, i) && *p == store.profiles@[i]),
{
    match selected {
        Some(id) => store.find(id),
        None => None,
    }
}

/// The selection after profile `deleted` was removed from `store`: when it
/// was the selected one, the first remaining profile is selected instead.
pub fn selection_after_delete(store: &ProfileStore, selected: Option<String>, deleted: &str) -> (r: Option<String>)
    ensures
        (selected matches Some(s) && s@ == deleted@) ==> (if store.profiles@.len() == 0 {
            r is None
        } else {
            r matches Some(i) && i@ == store.profiles@[0].id@
        }),
        !(selected matches Some(s) && s@ == deleted@) ==> r == selected,
{
    let was_selected = match &selected {
        Some(s) => crate::text::str_eq(s.as_str(), deleted),
        None => false,
    };
    if was_selected {
        first_profile_id(store)
    } else {
        selected
    }
}

pub const REQUIRED_FIELDS_MESSAGE: &'static str = "Name, host, port and email are required";

/// The title of the profile form.
pub fn edit_window_title(is_new: bool) -> (s: String)
    ensures
        s@ == (if is_new { "Add Profile"@ } else { "Edit Profile"@ }),
{
    if is_new {
        String::from_str("Add Profile")
    } else {
        String::from_str("Edit Profile")
    }
}

/// Puts the form's profile into the store: a new one is added at the end,
/// an existing one replaces the first profile with its id, which must
/// still be there.
pub fn apply_form(store: &mut ProfileStore, form: &EditForm) -> (r: Result<(), String>)
    ensures
        form.is_new ==> r is Ok && final(store).profiles@ == old(store).profiles@.push(form.profile),
        !form.is_new ==> (r is Ok <==> has_id(old(store).profiles@, form.profile.id@)),
        !form.is_new ==> (r is Ok ==> exists|i: int|
            is_first_with_id(old(store).profiles@, form.profile.id@, i) && final(store).profiles@
                == old(store).profiles@.update(i, form.profile)),
        !form.is_new ==> (r matches Err(e) ==> e@ == not_found_message(form.profile.id@)
            && final(store).profiles@ == old(store).profiles@),
{
    if form.is_new {
        store.add(form.profile.duplicate());
        Ok(())
    } else {
        store.update(form.profile.duplicate())
    }
}

} // verus!
