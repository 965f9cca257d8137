//! The machines on which a badge was earned.
use vstd::prelude::*;

use crate::sort::{
    ordered, stable_order, stable_order_exists, stable_order_names_every_place, stable_order_of,
};
use crate::text::{cat2, cat3, cat5, decimal, decimal_string, plural, plural_of};
use crate::time::{date_of, date_string, date_text, unix_to_date};

verus! {

/// What the user did.
#[derive(Debug, Clone, Copy, PartialEq, Eq, Structural)]
pub enum BadgeMultiplierDetailChoice {
    Close,
}

/// A machine of the account that earned the badge.
#[derive(Clone, Debug)]
pub struct AccountBadgeInstall {
    pub install_id: String,
    /// The first four characters of the id.
    pub install_id_prefix: String,
    pub nickname: Option<String>,
    pub cpu_class: Option<String>,
    /// 0 where it is not known.
    pub earned_at_unix: u64,
    pub archived: bool,
}

/// The name of a machine: the one that it was given, or else the start of its id.
pub open spec fn install_name(install: AccountBadgeInstall) -> Seq<char> {
    match install.nickname {
        Some(nickname) => if nickname@.len() > 0 {
            nickname@
        } else {
            install.install_id_prefix@
        },
        None => install.install_id_prefix@,
    }
}

/// The label of a machine.
pub open spec fn label_text(install: AccountBadgeInstall) -> Seq<char> {
    if install.archived {
        "Archived · "@ + install_name(install)
    } else {
        install_name(install)
    }
}

/// The label of a machine.
pub fn display_label(install: &AccountBadgeInstall) -> (r: String)
    ensures
        r@ == label_text(*install),
{
    let base = match &install.nickname {
        Some(nickname) => if nickname.as_str().unicode_len() > 0 {
            nickname.as_str()
        } else {
            install.install_id_prefix.as_str()
        },
        None => install.install_id_prefix.as_str(),
    };
    if install.archived {
        cat2("Archived · ", base)
    } else {
        base.to_owned()
    }
}

/// When a badge was earned.
pub open spec fn earned_text(secs: u64) -> Seq<char> {
    if secs == 0 {
        "earned date unknown"@
    } else {
        "earned "@ + date_text(date_of(secs))
    }
}

/// When a badge was earned, as a date in UTC.
pub fn format_earned_at(secs: u64) -> (r: String)
    ensures
        r@ == earned_text(secs),
{
    if secs == 0 {
        return "earned date unknown".to_owned();
    }
    let date = date_string(unix_to_date(secs));
    cat2("earned ", date.as_str())
}

/// The end of a machine's row: when the badge was earned, and on what.
pub open spec fn row_tail_text(install: AccountBadgeInstall) -> Seq<char> {
    match install.cpu_class {
        Some(class) => earned_text(install.earned_at_unix) + " · "@ + class@,
        None => earned_text(install.earned_at_unix),
    }
}

/// The end of a machine's row.
pub fn row_tail(install: &AccountBadgeInstall) -> (r: String)
    ensures
        r@ == row_tail_text(*install),
{
    let earned = format_earned_at(install.earned_at_unix);
    match &install.cpu_class {
        Some(class) => cat3(earned.as_str(), " · ", class.as_str()),
        None => earned,
    }
}

/// The sort keys of the machines: the latest comes first.
pub open spec fn latest_first(installs: Seq<AccountBadgeInstall>) -> Seq<i128> {
    installs.map_values(|install: AccountBadgeInstall| -(install.earned_at_unix as i128) as i128)
}

/// What a machine's row shows.
pub struct InstallRow {
    pub label: String,
    pub dimmed: bool,
    pub tail: String,
}

/// What the rows hold.
pub open spec fn row_views(rows: Seq<InstallRow>) -> Seq<(Seq<char>, bool, Seq<char>)> {
    rows.map_values(|row: InstallRow| (row.label@, row.dimmed, row.tail@))
}

/// What a machine's row holds.
pub open spec fn row_of(install: AccountBadgeInstall) -> (Seq<char>, bool, Seq<char>) {
    (label_text(install), install.archived, row_tail_text(install))
}

/// What the window shows.
pub struct DetailView {
    pub title: String,
    pub rows: Vec<InstallRow>,
    /// Shown in place of rows where there are none.
    pub note: Option<&'static str>,
}

/// The title of the window.
pub open spec fn title_text(name: Seq<char>, count: nat) -> Seq<char> {
    if name.len() == 0 {
        "Earned on "@ + decimal(count) + " installs"@
    } else {
        name + " — earned on "@ + decimal(count) + " install"@ + plural(count as int)
    }
}

/// What the window shows: the machines, the latest to earn the badge first.
pub fn detail_view(name: &str, installs: &Vec<AccountBadgeInstall>) -> (r: DetailView)
    ensures
        r.title@ == title_text(name@, installs@.len()),
        row_views(r.rows@) == ordered(installs@, latest_first(installs@)).map_values(
            |install: AccountBadgeInstall| row_of(install),
        ),
        match r.note {
            Some(note) => installs@.len() == 0 && note@
                == "No per-install detail available yet — the server's badge-summary endpoint may not have populated this achievement on your account. Try refreshing the badge wall (Settings → Account → Refresh)."@,
            None => installs@.len() > 0,
        },
{
    let n = decimal_string(installs.len() as u64);
    let title = if name.unicode_len() == 0 {
        cat3("Earned on ", n.as_str(), " installs")
    } else {
        let s = plural_of(installs.len() as u64);
        cat5(name, " — earned on ", n.as_str(), " install", s)
    };
    let mut keys: Vec<i128> = Vec::new();
    let mut i: usize = 0;
    while i < installs.len()
        invariant
            i <= installs.len(),
            keys@ =~= latest_first(installs@).take(i as int),
        decreases installs.len() - i,
    {
        keys.push(-(installs[i].earned_at_unix as i128));
        i = i + 1;
    }
    assert(keys@ =~= latest_first(installs@));
    let order = stable_order(&keys);
    let ghost wanted = ordered(installs@, latest_first(installs@)).map_values(
        |install: AccountBadgeInstall| row_of(install),
    );
    let mut rows: Vec<InstallRow> = Vec::new();
    let mut j: usize = 0;
    assert(row_views(rows@) =~= wanted.take(0));
    while j < order.len()
        invariant
            j <= order.len(),
            order@ == stable_order_of(latest_first(installs@)),
            forall|k: int| 0 <= k < order.len() ==> #[trigger] order@[k] < installs.len(),
            wanted == ordered(installs@, latest_first(installs@)).map_values(
                |install: AccountBadgeInstall| row_of(install),
            ),
            row_views(rows@) =~= wanted.take(j as int),
        decreases order.len() - j,
    {
        let ghost before = rows@;
        assert(order@[j as int] < installs.len());
        let install = &installs[order[j]];
        let row = InstallRow {
            label: display_label(install),
            dimmed: install.archived,
            tail: row_tail(install),
        };
        assert(wanted[j as int] == row_of(*install));
        rows.push(row);
        assert(row_views(rows@) =~= row_views(before).push((row.label@, row.dimmed, row.tail@)));
        j = j + 1;
    }
    assert(row_views(rows@) =~= wanted);
    let note = if installs.len() == 0 {
        Some(
            "No per-install detail available yet — the server's badge-summary endpoint may not have populated this achievement on your account. Try refreshing the badge wall (Settings → Account → Refresh).",
        )
    } else {
        None
    };
    DetailView { title, rows, note }
}

/// The machine that earned the badge last comes first.
pub proof fn latest_comes_first(installs: Seq<AccountBadgeInstall>, i: int, j: int)
    requires
        0 <= i < j < installs.len(),
        installs.len() <= usize::MAX,
    ensures
        ordered(installs, latest_first(installs)).len() == installs.len(),
        ordered(installs, latest_first(installs))[i].earned_at_unix >= ordered(
            installs,
            latest_first(installs),
        )[j].earned_at_unix,
{
    let keys = latest_first(installs);
    stable_order_exists(keys);
    let order = stable_order_of(keys);
    assert(order[i] < keys.len() && order[j] < keys.len());
    assert(keys[order[i] as int] <= keys[order[j] as int]);
}

/// What the user did: the escape key, a click outside and the button each close the window.
pub fn choice(escape: bool, clicked_outside: bool, close_button: bool) -> (r: Option<
    BadgeMultiplierDetailChoice,
>)
    ensures
        r is Some <==> escape || clicked_outside || close_button,
{
    if escape || clicked_outside || close_button {
        Some(BadgeMultiplierDetailChoice::Close)
    } else {
        None
    }
}

/// Every machine has its row.
pub proof fn every_machine_has_its_row(installs: Seq<AccountBadgeInstall>, at: usize)
    requires
        installs.len() <= usize::MAX,
        at < installs.len(),
    ensures
        ordered(installs, latest_first(installs)).len() == installs.len(),
        ordered(installs, latest_first(installs)).contains(installs[at as int]),
{
    let keys = latest_first(installs);
    let order = stable_order_of(keys);
    stable_order_exists(keys);
    stable_order_names_every_place(keys, order, at);
    let i = choose|i: int| 0 <= i < order.len() && order[i] == at;
    assert(ordered(installs, keys)[i] == installs[at as int]);
}

/// A machine is called by its nickname, and by the beginning of its id where it has none or an
/// empty one. One that was archived is marked and dimmed.
pub proof fn machines_have_their_names(install: AccountBadgeInstall)
    ensures
        ({
            let named = install.nickname is Some && (install.nickname->0)@.len() > 0;
            let name = if named {
                (install.nickname->0)@
            } else {
                install.install_id_prefix@
            };
            &&& row_of(install).1 == install.archived
            &&& install.archived ==> row_of(install).0 == "Archived · "@ + name
            &&& !install.archived ==> row_of(install).0 == name
        }),
{
}

/// The row tells when the badge was earned, and the class of the machine where it is known.
pub proof fn rows_tell_when_it_was_earned(install: AccountBadgeInstall)
    ensures
        ({
            let earned = if install.earned_at_unix == 0 {
                "earned date unknown"@
            } else {
                "earned "@ + date_text(date_of(install.earned_at_unix))
            };
            &&& install.cpu_class is None ==> row_of(install).2 == earned
            &&& install.cpu_class matches Some(class) ==> row_of(install).2 == earned + " · "@ + class@
        }),
{
}

} // verus!
