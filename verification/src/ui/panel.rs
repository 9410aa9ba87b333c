//! The main panel: the device list, or the scan picker.

use vstd::prelude::*;
use vstd::view::View as Viewed;

use crate::app::{ints, picker_rows, rows_are_devices, shown_rows, App, AppModel, View, ViewModel};
use crate::bt::{Device, DeviceModel, DiscoveredGroup, GroupModel};
use crate::text;
use crate::text::decimal;

use super::{
    add_line, add_piece, bold, bold_look, fg, line1, line2, line3, piece, plain_look, Ink,
    LinesModel, Piece, PieceModel,
};

verus! {

/// The panel's content.
pub enum Body {
    /// A message in the middle.
    Message(Vec<Vec<Piece>>),
    /// Rows with a cursor, and the cursor's position for the bottom border.
    Rows { rows: Vec<Vec<Piece>>, selected: usize, counter: Vec<Piece> },
}

pub ghost enum BodyModel {
    Message(LinesModel),
    Rows { rows: LinesModel, selected: nat, counter: Seq<PieceModel> },
}

impl Viewed for Body {
    type V = BodyModel;

    open spec fn view(&self) -> BodyModel {
        match self {
            Body::Message(lines) => BodyModel::Message(lines.deep_view()),
            Body::Rows { rows, selected, counter } => BodyModel::Rows {
                rows: rows.deep_view(),
                selected: *selected as nat,
                counter: counter.deep_view(),
            },
        }
    }
}

/// The main panel: its title, a badge for the bottom border, and its content.
pub struct Panel {
    pub title: Vec<Piece>,
    pub badge: Option<Vec<Piece>>,
    pub body: Body,
}

pub ghost struct PanelModel {
    pub title: Seq<PieceModel>,
    pub badge: Option<Seq<PieceModel>>,
    pub body: BodyModel,
}

impl Viewed for Panel {
    type V = PanelModel;

    open spec fn view(&self) -> PanelModel {
        PanelModel {
            title: self.title.deep_view(),
            badge: self.badge.deep_view(),
            body: self.body@,
        }
    }
}

/// The cursor's position, as "2/5"; "0/0" where there are no rows.
pub open spec fn position_line(selected: nat, len: nat) -> Seq<PieceModel> {
    let pos: nat = if len == 0 {
        0
    } else {
        selected + 1
    };
    seq![
        piece("┤"@, plain_look(Ink::SteelDim)),
        piece(decimal(pos) + "/"@ + decimal(len), bold_look(Ink::Ice)),
        piece("├"@, plain_look(Ink::SteelDim)),
    ]
}

/// The cursor's position for the bottom border.
pub fn position(selected: usize, len: usize) -> (r: Vec<Piece>)
    ensures
        r.deep_view() == position_line(selected as nat, len as nat),
{
    let pos: u128 = if len == 0 {
        0
    } else {
        selected as u128 + 1
    };
    let counter = text::join3(
        text::to_decimal(pos).as_str(),
        "/",
        text::to_decimal(len as u128).as_str(),
    );
    line3(
        "┤",
        fg(Ink::SteelDim),
        counter.as_str(),
        bold(Ink::Ice),
        "├",
        fg(Ink::SteelDim),
    )
}

// ---------------------------------------------------------------------------
// Devices
// ---------------------------------------------------------------------------

/// A full battery is green, a low one orange, an empty one red.
pub open spec fn battery_ink(level: u8) -> Ink {
    if level >= 50 {
        Ink::Green
    } else if level >= 20 {
        Ink::Orange
    } else {
        Ink::Red
    }
}

/// A device's row: a mark, its name, and what there is to say of its state.
pub open spec fn device_line(d: DeviceModel) -> Seq<PieceModel> {
    let head = if d.connected {
        seq![
            piece("󰂱 "@, plain_look(Ink::Green)),
            piece(d.name, bold_look(Ink::Snow)),
            piece(" [CONNECTED]"@, plain_look(Ink::Green)),
        ]
    } else {
        seq![piece("󰂯 "@, plain_look(Ink::Slate)), piece(d.name, plain_look(Ink::Plain))]
    };
    let charged = match d.battery {
        Some(level) => head.push(
            piece(" 󰁹 "@ + decimal(level as nat) + "%"@, plain_look(battery_ink(level))),
        ),
        None => head,
    };
    let trusted = if d.trusted {
        charged.push(piece(" 󰒘 trusted"@, plain_look(Ink::Slate)))
    } else {
        charged
    };
    trusted.push(piece("  "@ + d.mac, plain_look(Ink::Slate)))
}

pub fn device_row(d: &Device) -> (r: Vec<Piece>)
    ensures
        r.deep_view() == device_line(d@),
{
    let mut line = if d.connected {
        line3(
            "󰂱 ",
            fg(Ink::Green),
            d.name.as_str(),
            bold(Ink::Snow),
            " [CONNECTED]",
            fg(Ink::Green),
        )
    } else {
        line2("󰂯 ", fg(Ink::Slate), d.name.as_str(), fg(Ink::Plain))
    };
    match d.battery {
        Some(level) => {
            let ink = if level >= 50 {
                Ink::Green
            } else if level >= 20 {
                Ink::Orange
            } else {
                Ink::Red
            };
            let s = text::join3(" 󰁹 ", text::to_decimal(level as u128).as_str(), "%");
            add_piece(&mut line, s.as_str(), fg(ink));
        },
        None => {},
    }
    if d.trusted {
        add_piece(&mut line, " 󰒘 trusted", fg(Ink::Slate));
    }
    add_piece(&mut line, text::join2("  ", d.mac.as_str()).as_str(), fg(Ink::Slate));
    line
}

/// The rows of the device list.
pub open spec fn device_lines(devices: Seq<DeviceModel>, rows: Seq<int>) -> LinesModel {
    Seq::new(rows.len(), |k: int| device_line(devices[rows[k]]))
}

/// How many of the devices are connected.
pub open spec fn connected_count(devices: Seq<DeviceModel>) -> nat
    decreases devices.len(),
{
    if devices.len() == 0 {
        0
    } else {
        connected_count(devices.drop_last()) + (if devices.last().connected {
            1nat
        } else {
            0nat
        })
    }
}

/// How many devices are connected, where any is.
pub open spec fn badge_line(devices: Seq<DeviceModel>) -> Option<Seq<PieceModel>> {
    if connected_count(devices) == 0 {
        None
    } else {
        Some(
            seq![
                piece("┤"@, plain_look(Ink::SteelDim)),
                piece(
                    "● "@ + decimal(connected_count(devices)) + " connected"@,
                    plain_look(Ink::Green),
                ),
                piece("├"@, plain_look(Ink::SteelDim)),
            ],
        )
    }
}

/// The list's title, and the filter where there is one.
pub open spec fn list_title(filter: Seq<char>, filtering: bool) -> Seq<PieceModel> {
    let title = seq![piece(" 󰂯 Paired Devices "@, bold_look(Ink::Blue))];
    if filtering || filter.len() > 0 {
        let cursor = if filtering {
            "▏"@
        } else {
            ""@
        };
        title.push(piece("/"@ + filter + cursor + " "@, bold_look(Ink::Orange)))
    } else {
        title
    }
}

/// What the list says where there are no paired devices.
pub open spec fn no_devices_lines() -> LinesModel {
    seq![
        seq![piece("󰂲"@, bold_look(Ink::Blue))],
        Seq::empty(),
        seq![piece("No paired devices"@, plain_look(Ink::Snow))],
        seq![
            piece("press "@, plain_look(Ink::Slate)),
            piece("s"@, bold_look(Ink::Orange)),
            piece(" to scan & pair"@, plain_look(Ink::Slate)),
        ],
    ]
}

// ---------------------------------------------------------------------------
// The picker
// ---------------------------------------------------------------------------

/// A row of the picker: the device's name and its first address, and how many
/// more it advertises.
pub open spec fn group_line(g: GroupModel) -> Seq<PieceModel> {
    let head = seq![
        piece("󰐗 "@, plain_look(Ink::Orange)),
        piece(g.name, plain_look(Ink::Snow)),
    ];
    if g.macs.len() == 0 {
        head
    } else if g.macs.len() == 1 {
        head.push(piece("  "@ + g.macs[0], plain_look(Ink::Slate)))
    } else {
        head.push(
            piece(
                "  "@ + g.macs[0] + " (+"@ + decimal((g.macs.len() - 1) as nat) + " more)"@,
                plain_look(Ink::Slate),
            ),
        )
    }
}

pub fn group_row(g: &DiscoveredGroup) -> (r: Vec<Piece>)
    ensures
        r.deep_view() == group_line(g@),
{
    let mut line = line2("󰐗 ", fg(Ink::Orange), g.name.as_str(), fg(Ink::Snow));
    let n: usize = g.macs.len();
    if n > 0 {
        assert(g.macs.deep_view()[0] == g.macs@[0]@);
        let mut s = text::join2("  ", g.macs[0].as_str());
        if n > 1 {
            s.append(" (+");
            s.append(text::to_decimal(n as u128 - 1).as_str());
            s.append(" more)");
        }
        add_piece(&mut line, s.as_str(), fg(Ink::Slate));
    }
    line
}

pub open spec fn group_lines(groups: Seq<GroupModel>) -> LinesModel {
    Seq::new(groups.len(), |k: int| group_line(groups[k]))
}

// ---------------------------------------------------------------------------
// The panel
// ---------------------------------------------------------------------------

/// The panel of the application's state: the picker where that is open, else
/// the device list.
pub open spec fn panel_of(s: AppModel) -> PanelModel {
    match s.view {
        ViewModel::ScanResults { items, selected } => PanelModel {
            title: seq![piece(" 󰐷 New Devices "@, bold_look(Ink::Orange))],
            badge: None,
            body: if items.len() == 0 {
                BodyModel::Message(
                    seq![seq![piece("listening for devices…"@, plain_look(Ink::Slate))]],
                )
            } else {
                BodyModel::Rows {
                    rows: group_lines(picker_rows(s.view)),
                    selected,
                    counter: position_line(selected, picker_rows(s.view).len()),
                }
            },
        },
        _ => if s.devices.len() == 0 {
            PanelModel {
                title: list_title(s.filter, s.filtering),
                badge: None,
                body: BodyModel::Message(no_devices_lines()),
            }
        } else {
            let rows = shown_rows(s.devices, s.filter);
            PanelModel {
                title: list_title(s.filter, s.filtering),
                badge: badge_line(s.devices),
                body: BodyModel::Rows {
                    rows: device_lines(s.devices, rows),
                    selected: s.selected,
                    counter: position_line(s.selected, rows.len()),
                },
            }
        },
    }
}

fn badge(devices: &Vec<Device>) -> (r: Option<Vec<Piece>>)
    ensures
        r.deep_view() == badge_line(devices.deep_view()),
{
    let ghost all = devices.deep_view();
    let mut connected: usize = 0;
    let mut i: usize = 0;
    assert(all.take(0).len() == 0);
    while i < devices.len()
        invariant
            i <= devices@.len(),
            all == devices.deep_view(),
            connected == connected_count(all.take(i as int)),
            connected <= i,
        decreases devices@.len() - i,
    {
        assert(all.take(i + 1).drop_last() =~= all.take(i as int));
        assert(all.take(i + 1).last() == devices@[i as int]@);
        if devices[i].connected {
            connected += 1;
        }
        i += 1;
    }
    assert(all.take(i as int) =~= all);
    if connected == 0 {
        return None;
    }
    let s = text::join3("● ", text::to_decimal(connected as u128).as_str(), " connected");
    Some(line3("┤", fg(Ink::SteelDim), s.as_str(), fg(Ink::Green), "├", fg(Ink::SteelDim)))
}

fn title(app: &App) -> (r: Vec<Piece>)
    ensures
        r.deep_view() == list_title(app.filter@, app.filtering),
{
    let mut line = line1(" 󰂯 Paired Devices ", bold(Ink::Blue));
    if app.filtering || !app.filter.as_str().is_empty() {
        let mut s = text::join2("/", app.filter.as_str());
        s.append(
            if app.filtering {
                "▏"
            } else {
                ""
            },
        );
        s.append(" ");
        add_piece(&mut line, s.as_str(), bold(Ink::Orange));
    }
    line
}

fn no_devices() -> (r: Vec<Vec<Piece>>)
    ensures
        r.deep_view() == no_devices_lines(),
{
    let mut lines: Vec<Vec<Piece>> = Vec::new();
    add_line(&mut lines, line1("󰂲", bold(Ink::Blue)));
    let blank: Vec<Piece> = Vec::new();
    assert(blank.deep_view() =~= Seq::<PieceModel>::empty());
    add_line(&mut lines, blank);
    add_line(&mut lines, line1("No paired devices", fg(Ink::Snow)));
    add_line(
        &mut lines,
        line3(
            "press ",
            fg(Ink::Slate),
            "s",
            bold(Ink::Orange),
            " to scan & pair",
            fg(Ink::Slate),
        ),
    );
    assert(lines.deep_view() =~= no_devices_lines());
    lines
}

fn list_rows(app: &App) -> (r: Vec<Vec<Piece>>)
    ensures
        r.deep_view() == device_lines(app@.devices, shown_rows(app@.devices, app@.filter)),
{
    let rows = app.visible();
    let ghost ds = app@.devices;
    let ghost shown = shown_rows(ds, app@.filter);
    let ghost want = device_lines(ds, shown);
    assert(ints(rows@).len() == rows@.len());
    let mut lines: Vec<Vec<Piece>> = Vec::new();
    let mut k: usize = 0;
    assert(lines.deep_view() =~= want.take(0));
    while k < rows.len()
        invariant
            k <= rows@.len(),
            rows@.len() == shown.len(),
            ints(rows@) == shown,
            ds == app@.devices,
            shown == shown_rows(ds, app@.filter),
            want == device_lines(ds, shown),
            lines.deep_view() == want.take(k as int),
        decreases rows@.len() - k,
    {
        let at: usize = rows[k];
        proof {
            assert(ints(rows@)[k as int] == at);
            rows_are_devices(ds, app@.filter, ds.len(), k as int);
            assert(ds[at as int] == app.devices@[at as int]@);
        }
        add_line(&mut lines, device_row(&app.devices[at]));
        assert(want.take(k + 1) =~= want.take(k as int).push(want[k as int]));
        k += 1;
    }
    assert(want.take(k as int) =~= want);
    lines
}

fn picker_lines(groups: &Vec<DiscoveredGroup>) -> (r: Vec<Vec<Piece>>)
    ensures
        r.deep_view() == group_lines(groups.deep_view()),
{
    let ghost all = groups.deep_view();
    let ghost want = group_lines(all);
    let mut lines: Vec<Vec<Piece>> = Vec::new();
    let mut k: usize = 0;
    assert(lines.deep_view() =~= want.take(0));
    while k < groups.len()
        invariant
            k <= groups@.len(),
            all == groups.deep_view(),
            want == group_lines(all),
            lines.deep_view() == want.take(k as int),
        decreases groups@.len() - k,
    {
        add_line(&mut lines, group_row(&groups[k]));
        assert(all[k as int] == groups@[k as int]@);
        assert(want.take(k + 1) =~= want.take(k as int).push(want[k as int]));
        k += 1;
    }
    assert(want.take(k as int) =~= want);
    lines
}

/// The main panel.
pub fn panel(app: &App) -> (r: Panel)
    ensures
        r@ == panel_of(app@),
{
    match &app.view {
        View::ScanResults { items, selected } => {
            let title = line1(" 󰐷 New Devices ", bold(Ink::Orange));
            if items.len() == 0 {
                let mut lines: Vec<Vec<Piece>> = Vec::new();
                add_line(&mut lines, line1("listening for devices…", fg(Ink::Slate)));
                assert(lines.deep_view() =~= seq![
                    seq![piece("listening for devices…"@, plain_look(Ink::Slate))],
                ]);
                return Panel { title, badge: None, body: Body::Message(lines) };
            }
            let groups = app.scan_groups();
            assert(groups.deep_view().len() == groups@.len());
            let counter = position(*selected, groups.len());
            let rows = picker_lines(&groups);
            Panel { title, badge: None, body: Body::Rows { rows, selected: *selected, counter } }
        },
        _ => {
            if app.devices.len() == 0 {
                return Panel {
                    title: title(app),
                    badge: None,
                    body: Body::Message(no_devices()),
                };
            }
            let rows = list_rows(app);
            assert(rows.deep_view().len() == rows@.len());
            let counter = position(app.selected, rows.len());
            Panel {
                title: title(app),
                badge: badge(&app.devices),
                body: Body::Rows { rows, selected: app.selected, counter },
            }
        },
    }
}

} // verus!
