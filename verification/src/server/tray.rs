//! The tray icon: its picture and its menu.
use super::ipc::ClientId;
use crate::text;
use vstd::prelude::*;

verus! {

/// The width and height of the icon, in pixels.
pub const ICON_SIZE: i32 = 32;

/// The four bytes of a pixel, opacity first: a disc in magenta, and nothing round it.
pub open spec fn pixel(x: int, y: int) -> Seq<u8> {
    seq![
        if (x - 16) * (x - 16) + (y - 16) * (y - 16) > 256 {
            0u8
        } else {
            255u8
        },
        200u8,
        40u8,
        180u8,
    ]
}

/// The first `n` pixels, line by line.
pub open spec fn picture(n: nat) -> Seq<u8>
    decreases n,
{
    if n == 0 {
        Seq::empty()
    } else {
        picture((n - 1) as nat) + pixel((n - 1) % 32, (n - 1) / 32)
    }
}

fn opacity(x: i32, y: i32) -> (a: u8)
    requires
        0 <= x < 32,
        0 <= y < 32,
    ensures
        a == pixel(x as int, y as int)[0],
{
    let dx: i32 = x - 16;
    let dy: i32 = y - 16;
    assert(dx * dx <= 256 && dy * dy <= 256 && dx * dx >= 0 && dy * dy >= 0) by (nonlinear_arith)
        requires
            -16 <= dx <= 15,
            -16 <= dy <= 15,
    ;
    if dx * dx + dy * dy > 256 {
        0
    } else {
        255
    }
}

/// The icon, pixel by pixel.
pub fn tray_icon() -> (data: Vec<u8>)
    ensures
        data@ == picture(1024),
{
    let mut data: Vec<u8> = Vec::new();
    let mut i: i32 = 0;
    while i < 1024
        invariant
            0 <= i <= 1024,
            data@ == picture(i as nat),
        decreases 1024 - i,
    {
        let x: i32 = i % 32;
        let y: i32 = i / 32;
        let ghost before = data@;
        data.push(opacity(x, y));
        data.push(200);
        data.push(40);
        data.push(180);
        assert(data@ =~= before + pixel(x as int, y as int));
        i += 1;
    }
    data
}

/// An entry of the menu.
pub enum MenuEntry {
    /// A submenu for a client: fullscreen, release of the mouse, disconnect.
    Client { id: ClientId, label: String },
    Separator,
    Quit,
}

/// What the label of a client is.
pub open spec fn client_label(name: Seq<char>, id: u64) -> Seq<char> {
    name + "-"@ + text::decimal(id as nat)
}

/// The menu for these clients: a submenu for each, then the way out.
pub fn menu(clients: &Vec<(ClientId, String)>) -> (r: Vec<MenuEntry>)
    ensures
        r@.len() == clients@.len() + 2,
        forall|i: int|
            0 <= i < clients@.len() ==> ((#[trigger] r@[i]) matches MenuEntry::Client { id, label }
                && id == clients@[i].0 && label@ == client_label(clients@[i].1@, id)),
        r@[clients@.len() as int] is Separator,
        r@[clients@.len() as int + 1] is Quit,
{
    let mut r: Vec<MenuEntry> = Vec::new();
    let mut i: usize = 0;
    while i < clients.len()
        invariant
            i <= clients.len(),
            r@.len() == i,
            forall|j: int|
                0 <= j < i ==> ((#[trigger] r@[j]) matches MenuEntry::Client { id, label } && id
                    == clients@[j].0 && label@ == client_label(clients@[j].1@, id)),
        decreases clients.len() - i,
    {
        let id = clients[i].0;
        let mut label = clients[i].1.clone();
        label.append("-");
        text::push_decimal(&mut label, id);
        r.push(MenuEntry::Client { id, label });
        i += 1;
    }
    r.push(MenuEntry::Separator);
    r.push(MenuEntry::Quit);
    r
}

proof fn pixels_lie_in_rows(n: nat, k: int)
    requires
        0 <= k < n,
    ensures
        picture(n).len() == 4 * n,
        picture(n).subrange(4 * k, 4 * k + 4) == pixel(k % 32, k / 32),
    decreases n,
{
    let m = (n - 1) as nat;
    let before = picture(m);
    if m > 0 {
        pixels_lie_in_rows(m, if k < m { k } else { 0 });
    }
    assert(before.len() == 4 * m);
    if k < m {
        assert(picture(n).subrange(4 * k, 4 * k + 4) =~= before.subrange(4 * k, 4 * k + 4));
    } else {
        assert(picture(n).subrange(4 * k, 4 * k + 4) =~= pixel(k % 32, k / 32));
    }
}

/// The icon is a disc of one colour on a square of 32 by 32 pixels, row by row: four bytes for
/// each pixel, the opacity first; it is full within 16 pixels of the middle and none outside.
pub proof fn the_icon_is_a_disc(x: int, y: int)
    requires
        0 <= x < 32,
        0 <= y < 32,
    ensures
        ({
            let p = picture(1024);
            let at = 4 * (32 * y + x);
            &&& p.len() == 4096
            &&& p[at] == 255 <==> (x - 16) * (x - 16) + (y - 16) * (y - 16) <= 16 * 16
            &&& p[at] == 0 || p[at] == 255
            &&& p[at + 1] == 200
            &&& p[at + 2] == 40
            &&& p[at + 3] == 180
        }),
{
    let k = 32 * y + x;
    pixels_lie_in_rows(1024, k);
    assert(k % 32 == x && k / 32 == y);
    let p = picture(1024);
    let part = p.subrange(4 * k, 4 * k + 4);
    assert(part[0] == p[4 * k] && part[1] == p[4 * k + 1] && part[2] == p[4 * k + 2] && part[3]
        == p[4 * k + 3]);
}

/// A client is shown by its name and its number.
pub proof fn clients_are_shown_by_name_and_number(name: Seq<char>, id: u64)
    ensures
        client_label(name, id).take(name.len() as int) == name,
        client_label(name, id)[name.len() as int] == '-',
        client_label(name, id).skip(name.len() as int + 1) == text::decimal(id as nat),
{
    reveal_strlit("-");
    let s = client_label(name, id);
    assert(s.take(name.len() as int) =~= name);
    assert(s.skip(name.len() as int + 1) =~= text::decimal(id as nat));
}

} // verus!
