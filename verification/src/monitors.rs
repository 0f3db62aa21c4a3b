//! The monitors of the desktop, and which of them the overlay covers.

use vstd::prelude::*;

use crate::decimal;
use crate::search;
use crate::text;

verus! {

/// A monitor as the system describes it.
#[derive(Debug)]
pub struct Display {
    pub x: i32,
    pub y: i32,
    pub width: u32,
    pub height: u32,
    /// The scale factor as it is shown.
    pub scale_factor: String,
    pub is_primary: bool,
    pub name: String,
}

/// A monitor and the number by which it is chosen.
#[derive(Debug)]
pub struct MonitorSpec {
    pub index: usize,
    pub x: i32,
    pub y: i32,
    pub width: u32,
    pub height: u32,
    /// The scale factor as it is shown.
    pub scale_factor: String,
    pub is_primary: bool,
    pub name: String,
}

impl Clone for MonitorSpec {
    fn clone(&self) -> (r: Self)
        ensures
            r == *self,
    {
        MonitorSpec {
            index: self.index,
            x: self.x,
            y: self.y,
            width: self.width,
            height: self.height,
            scale_factor: self.scale_factor.clone(),
            is_primary: self.is_primary,
            name: self.name.clone(),
        }
    }
}

/// `d` under the number `index`.
pub open spec fn numbered(d: Display, index: int) -> MonitorSpec {
    MonitorSpec {
        index: index as usize,
        x: d.x,
        y: d.y,
        width: d.width,
        height: d.height,
        scale_factor: d.scale_factor,
        is_primary: d.is_primary,
        name: d.name,
    }
}

/// Every monitor has its place in the list as its number.
pub open spec fn in_order(monitors: Seq<MonitorSpec>) -> bool {
    forall|i: int| 0 <= i < monitors.len() ==> (#[trigger] monitors[i]).index == i
}

/// Numbers the monitors by their place in the list.
pub fn number_monitors(displays: &Vec<Display>) -> (r: Vec<MonitorSpec>)
    ensures
        r@ == displays@.map(|i: int, d: Display| numbered(d, i)),
        in_order(r@),
{
    let mut r: Vec<MonitorSpec> = Vec::new();
    let mut i: usize = 0;
    while i < displays.len()
        invariant
            i <= displays.len(),
            r.len() == i,
            forall|k: int| 0 <= k < i ==> #[trigger] r@[k] == numbered(displays@[k], k),
        decreases displays.len() - i,
    {
        let d = &displays[i];
        r.push(
            MonitorSpec {
                index: i,
                x: d.x,
                y: d.y,
                width: d.width,
                height: d.height,
                scale_factor: d.scale_factor.clone(),
                is_primary: d.is_primary,
                name: d.name.clone(),
            },
        );
        i = i + 1;
    }
    assert(r@ =~= displays@.map(|i: int, d: Display| numbered(d, i)));
    r
}

/// How a monitor is listed.
pub open spec fn monitor_line(m: MonitorSpec) -> Seq<char> {
    "  ["@ + decimal::decimal(m.index as int) + "] "@ + m.name@ + (if m.is_primary {
        " (primary)"@
    } else {
        ""@
    }) + " pos=("@ + decimal::decimal(m.x as int) + ", "@ + decimal::decimal(m.y as int)
        + ") size="@ + decimal::decimal(m.width as int) + "x"@ + decimal::decimal(m.height as int)
        + " scale="@ + m.scale_factor@
}

/// How the monitors are listed.
pub open spec fn monitor_list(monitors: Seq<MonitorSpec>) -> Seq<Seq<char>> {
    if monitors.len() == 0 {
        seq!["no monitors found"@]
    } else {
        seq!["detected "@ + decimal::decimal(monitors.len() as int) + " monitor(s):"@]
            + monitors.map_values(|m: MonitorSpec| monitor_line(m))
    }
}

fn describe_monitor(m: &MonitorSpec) -> (r: String)
    ensures
        r@ == monitor_line(*m),
{
    let mut r = "  [".to_owned();
    decimal::append_u64(&mut r, m.index as u64);
    r.append("] ");
    r.append(m.name.as_str());
    r.append(
        if m.is_primary {
            " (primary)"
        } else {
            ""
        },
    );
    r.append(" pos=(");
    decimal::append_i32(&mut r, m.x);
    r.append(", ");
    decimal::append_i32(&mut r, m.y);
    r.append(") size=");
    decimal::append_u64(&mut r, m.width as u64);
    r.append("x");
    decimal::append_u64(&mut r, m.height as u64);
    r.append(" scale=");
    r.append(m.scale_factor.as_str());
    r
}

/// The lines that list the monitors.
pub fn log_monitors(monitors: &Vec<MonitorSpec>) -> (r: Vec<String>)
    ensures
        text::view_list(r@) == monitor_list(monitors@),
{
    let mut r: Vec<String> = Vec::new();
    if monitors.len() == 0 {
        r.push("no monitors found".to_owned());
        assert(text::view_list(r@) =~= monitor_list(monitors@));
        return r;
    }
    let mut head = "detected ".to_owned();
    decimal::append_u64(&mut head, monitors.len() as u64);
    head.append(" monitor(s):");
    r.push(head);
    let mut i: usize = 0;
    while i < monitors.len()
        invariant
            0 < monitors.len(),
            i <= monitors.len(),
            r.len() == i + 1,
            r@[0]@ == "detected "@ + decimal::decimal(monitors.len() as int) + " monitor(s):"@,
            forall|k: int| 0 <= k < i ==> #[trigger] r@[k + 1]@ == monitor_line(monitors@[k]),
        decreases monitors.len() - i,
    {
        r.push(describe_monitor(&monitors[i]));
        i = i + 1;
    }
    assert forall|k: int| 0 <= k < r.len() implies #[trigger] text::view_list(r@)[k]
        == monitor_list(monitors@)[k] by {
        if k > 0 {
            assert(r@[(k - 1) + 1]@ == monitor_line(monitors@[k - 1]));
        }
    }
    assert(text::view_list(r@) =~= monitor_list(monitors@));
    r
}

/// The first monitor with the number `place`.
pub open spec fn numbered_as(monitors: Seq<MonitorSpec>, place: int) -> Option<int> {
    search::first_where(monitors, |m: MonitorSpec| m.index == place)
}

/// The first primary monitor.
pub open spec fn first_primary(monitors: Seq<MonitorSpec>) -> Option<int> {
    search::first_where(monitors, |m: MonitorSpec| m.is_primary)
}

/// The place in the list of the monitor that is covered where no other one is
/// named: the primary one, else the first one.
pub open spec fn fallback_monitor(monitors: Seq<MonitorSpec>) -> int {
    match first_primary(monitors) {
        Some(k) => k,
        None => 0,
    }
}

/// The place in the list of the monitor that the overlay covers: none for a
/// negative number, else the one with that number, else the fallback.
pub open spec fn selected(monitors: Seq<MonitorSpec>, wanted: Option<i32>) -> Option<int> {
    if monitors.len() == 0 {
        None
    } else {
        match wanted {
            Some(idx) => if idx < 0 {
                None
            } else {
                match numbered_as(monitors, idx as int) {
                    Some(k) => Some(k),
                    None => Some(fallback_monitor(monitors)),
                }
            },
            None => Some(fallback_monitor(monitors)),
        }
    }
}

fn find_numbered(monitors: &Vec<MonitorSpec>, place: usize) -> (r: Option<usize>)
    ensures
        match r {
            Some(k) => k < monitors.len() && numbered_as(monitors@, place as int) == Some(
                k as int,
            ),
            None => numbered_as(monitors@, place as int) is None,
        },
{
    let ghost p = |m: MonitorSpec| m.index == place as int;
    let mut i: usize = 0;
    while i < monitors.len()
        invariant
            i <= monitors.len(),
            p == (|m: MonitorSpec| m.index == place as int),
            search::first_where(monitors@, p) == search::first_from(monitors@, p, i as int),
        decreases monitors.len() - i,
    {
        if monitors[i].index == place {
            return Some(i);
        }
        i = i + 1;
    }
    None
}

fn find_primary(monitors: &Vec<MonitorSpec>) -> (r: Option<usize>)
    ensures
        match r {
            Some(k) => k < monitors.len() && first_primary(monitors@) == Some(k as int),
            None => first_primary(monitors@) is None,
        },
{
    let ghost p = |m: MonitorSpec| m.is_primary;
    let mut i: usize = 0;
    while i < monitors.len()
        invariant
            i <= monitors.len(),
            p == (|m: MonitorSpec| m.is_primary),
            search::first_where(monitors@, p) == search::first_from(monitors@, p, i as int),
        decreases monitors.len() - i,
    {
        if monitors[i].is_primary {
            return Some(i);
        }
        i = i + 1;
    }
    None
}

/// The monitor that the overlay covers.
pub fn select_monitor(monitors: &Vec<MonitorSpec>, monitor_index: Option<i32>) -> (r: Option<
    MonitorSpec,
>)
    ensures
        match selected(monitors@, monitor_index) {
            Some(k) => r == Some(monitors@[k]),
            None => r is None,
        },
{
    if monitors.len() == 0 {
        return None;
    }
    if let Some(idx) = monitor_index {
        if idx < 0 {
            return None;
        }
        if let Some(k) = find_numbered(monitors, idx as usize) {
            return Some(monitors[k].clone());
        }
    }
    if let Some(k) = find_primary(monitors) {
        return Some(monitors[k].clone());
    }
    Some(monitors[0].clone())
}

/// What is said where the wanted monitor does not exist and another one is
/// covered.
pub open spec fn missing_notice(monitors: Seq<MonitorSpec>, wanted: Option<i32>) -> Option<
    Seq<char>,
> {
    match wanted {
        Some(idx) => if monitors.len() > 0 && idx >= 0 && numbered_as(monitors, idx as int) is None {
            Some(
                "monitor index "@ + decimal::decimal(idx as int)
                    + " not found, fallback to primary"@,
            )
        } else {
            None
        },
        None => None,
    }
}

/// What is said where the wanted monitor does not exist and another one is
/// covered.
pub fn missing_monitor_notice(monitors: &Vec<MonitorSpec>, wanted: Option<i32>) -> (r: Option<
    String,
>)
    ensures
        text::view_option(r) == missing_notice(monitors@, wanted),
{
    let idx = match wanted {
        Some(idx) => idx,
        None => return None,
    };
    if monitors.len() == 0 || idx < 0 || find_numbered(monitors, idx as usize).is_some() {
        return None;
    }
    let mut s = "monitor index ".to_owned();
    decimal::append_i32(&mut s, idx);
    s.append(" not found, fallback to primary");
    Some(s)
}

/// The number that an empty answer stands for.
pub open spec fn default_index(monitors: Seq<MonitorSpec>) -> i32 {
    match first_primary(monitors) {
        Some(k) => monitors[k].index as i32,
        None => 0,
    }
}

/// The number that an empty answer stands for: that of the primary monitor.
pub fn default_monitor_index(monitors: &Vec<MonitorSpec>) -> (r: i32)
    ensures
        r == default_index(monitors@),
{
    match find_primary(monitors) {
        Some(k) => monitors[k].index as i32,
        None => 0,
    }
}

/// The question which monitor the overlay is to cover.
pub fn monitor_question(default_idx: i32) -> (r: String)
    ensures
        r@ == "请选择弹幕显示器编号（回车默认 "@ + decimal::decimal(default_idx as int)
            + "，输入 -1 为不显示悬浮层）: "@,
{
    let mut r = "请选择弹幕显示器编号（回车默认 ".to_owned();
    decimal::append_i32(&mut r, default_idx);
    r.append("，输入 -1 为不显示悬浮层）: ");
    r
}

/// What the answer `input` to the question chooses, or none where the question
/// is to be put again. A missing answer and an empty one choose the default, and
/// -1 chooses no monitor.
pub open spec fn answer_to_question(monitors: Seq<MonitorSpec>, input: Option<Seq<char>>) -> Option<
    i32,
> {
    match input {
        None => Some(default_index(monitors)),
        Some(s) => {
            let word = text::trimmed(s);
            if word.len() == 0 {
                Some(default_index(monitors))
            } else {
                match decimal::signed_decimal(word) {
                    Some(n) => if !(i32::MIN <= n <= i32::MAX) {
                        None
                    } else if n == -1 || (n >= 0 && numbered_as(monitors, n) is Some) {
                        Some(n as i32)
                    } else {
                        None
                    },
                    None => None,
                }
            }
        },
    }
}

/// What the answer `input` chooses, where none stands for a failure to read
/// one. No result means that the question is to be put again.
pub fn prompt_monitor_index(monitors: &Vec<MonitorSpec>, input: Option<&str>) -> (r: Option<i32>)
    ensures
        r == answer_to_question(
            monitors@,
            match input {
                Some(s) => Some(s@),
                None => None,
            },
        ),
{
    let default_idx = default_monitor_index(monitors);
    let word = match input {
        Some(s) => text::trim(s),
        None => return Some(default_idx),
    };
    if word.unicode_len() == 0 {
        return Some(default_idx);
    }
    let idx = match decimal::parse_i32(word) {
        Some(idx) => idx,
        None => return None,
    };
    if idx == -1 {
        return Some(-1);
    }
    if idx < 0 {
        return None;
    }
    match find_numbered(monitors, idx as usize) {
        Some(_) => Some(idx),
        None => None,
    }
}

/// What is said of an answer that chooses nothing.
pub fn invalid_monitor_notice(input: &str) -> (r: String)
    ensures
        r@ == "无效编号："@ + text::trimmed(input@) + "，请重新输入。"@,
{
    let mut r = "无效编号：".to_owned();
    r.append(text::trim(input));
    r.append("，请重新输入。");
    r
}

/// With at least one monitor, numbered in order, every answer that is taken
/// either switches the overlay off or chooses the monitor with that number.
pub proof fn lemma_answer_selects(monitors: Seq<MonitorSpec>, input: Option<Seq<char>>)
    requires
        in_order(monitors),
        0 < monitors.len() <= i32::MAX,
    ensures
        answer_to_question(monitors, input) matches Some(idx) ==> {
            ||| idx == -1 && selected(monitors, Some(idx)) is None
            ||| 0 <= idx < monitors.len() && selected(monitors, Some(idx)) == Some(idx as int)
        },
{
    search::lemma_first_where(monitors, |m: MonitorSpec| m.is_primary);
    if let Some(idx) = answer_to_question(monitors, input) {
        search::lemma_first_where(monitors, |m: MonitorSpec| m.index == idx as int);
        assert(monitors[0].index == 0);
        if 0 <= idx < monitors.len() {
            assert(monitors[idx as int].index == idx);
            if let Some(k) = numbered_as(monitors, idx as int) {
                assert(monitors[k].index == k);
            }
        }
    }
}

/// The empty answer chooses the primary monitor where there is one.
pub proof fn lemma_empty_answer(monitors: Seq<MonitorSpec>, k: int)
    requires
        in_order(monitors),
        monitors.len() <= i32::MAX,
        first_primary(monitors) == Some(k),
    ensures
        answer_to_question(monitors, Some(Seq::empty())) == Some(k as i32),
        selected(monitors, Some(k as i32)) == Some(k),
        selected(monitors, None) == Some(k),
{
    search::lemma_first_where(monitors, |m: MonitorSpec| m.is_primary);
    assert(monitors[k].index == k);
    lemma_answer_selects(monitors, Some(Seq::empty()));
}

/// A monitor is reported missing exactly where one is covered under another
/// number than the wanted one.
pub proof fn lemma_missing_is_reported(monitors: Seq<MonitorSpec>, wanted: Option<i32>)
    ensures
        missing_notice(monitors, wanted) is Some <==> (selected(monitors, wanted) matches Some(k)
            && (wanted matches Some(idx) && monitors[k].index != idx)),
{
    search::lemma_first_where(monitors, |m: MonitorSpec| m.is_primary);
    if let Some(idx) = wanted {
        search::lemma_first_where(monitors, |m: MonitorSpec| m.index == idx as int);
    }
}

/// Where there is a monitor, one is covered unless the number is negative, and
/// a monitor that has the number is preferred to any other.
pub proof fn lemma_selected(monitors: Seq<MonitorSpec>, wanted: Option<i32>)
    requires
        monitors.len() > 0,
    ensures
        selected(monitors, wanted) is None <==> (wanted matches Some(idx) && idx < 0),
        selected(monitors, wanted) matches Some(k) ==> 0 <= k < monitors.len(),
        (wanted matches Some(idx) && idx >= 0 && exists|i: int|
            0 <= i < monitors.len() && (#[trigger] monitors[i]).index == idx) ==> monitors[selected(
            monitors,
            wanted,
        ).unwrap()].index == wanted.unwrap(),
{
    search::lemma_first_where(monitors, |m: MonitorSpec| m.is_primary);
    if let Some(idx) = wanted {
        search::lemma_first_where(monitors, |m: MonitorSpec| m.index == idx as int);
    }
}

/// Numbering a monitor gives it its number and changes nothing else of it.
pub proof fn lemma_numbered(d: Display, index: usize)
    ensures
        ({
            let m = numbered(d, index as int);
            &&& m.index == index
            &&& m.x == d.x && m.y == d.y
            &&& m.width == d.width && m.height == d.height
            &&& m.scale_factor == d.scale_factor
            &&& m.is_primary == d.is_primary
            &&& m.name == d.name
        }),
{
}

/// A number of a listed monitor selects the first monitor with it, a negative
/// number none, and any other number or none at all the first primary monitor,
/// or the first one where none is primary. Nothing is selected of an empty list.
pub proof fn lemma_which_monitor_is_selected(
    monitors: Seq<MonitorSpec>,
    wanted: Option<i32>,
    k: int,
)
    ensures
        ({
            let r = selected(monitors, wanted);
            let named = |i: int|
                0 <= i < monitors.len() && wanted is Some && monitors[i].index == wanted.unwrap();
            let primary = |i: int| 0 <= i < monitors.len() && monitors[i].is_primary;
            &&& monitors.len() == 0 ==> r is None
            &&& (wanted matches Some(n) && n < 0) ==> r is None
            &&& (wanted matches Some(n) ==> n >= 0) && monitors.len() > 0 ==> {
                &&& named(k) && (forall|j: int| j < k ==> !#[trigger] named(j)) ==> r == Some(k)
                &&& (forall|j: int| !#[trigger] named(j)) && primary(k) && (forall|j: int|
                    j < k ==> !#[trigger] primary(j)) ==> r == Some(k)
                &&& (forall|j: int| !#[trigger] named(j)) && (forall|j: int|
                    !#[trigger] primary(j)) ==> r == Some(0int)
            }
        }),
{
    let named = |i: int|
        0 <= i < monitors.len() && wanted is Some && monitors[i].index == wanted.unwrap();
    let primary = |i: int| 0 <= i < monitors.len() && monitors[i].is_primary;
    search::lemma_first_where(monitors, |m: MonitorSpec| m.is_primary);
    if let Some(p) = first_primary(monitors) {
        assert(primary(p));
    }
    if let Some(idx) = wanted {
        search::lemma_first_where(monitors, |m: MonitorSpec| m.index == idx as int);
        if let Some(n) = numbered_as(monitors, idx as int) {
            assert(named(n));
        }
    }
}

/// The question is answered by nothing, which means the number of the first
/// primary monitor, or 0 where none is primary; by -1; and by the number of a
/// listed monitor. Everything else is asked about again.
pub proof fn lemma_which_answers_count(monitors: Seq<MonitorSpec>, s: Seq<char>, k: int)
    ensures
        ({
            let word = text::trimmed(s);
            let r = answer_to_question(monitors, Some(s));
            let listed = |n: int|
                exists|i: int| 0 <= i < monitors.len() && (#[trigger] monitors[i]).index == n;
            let number = decimal::signed_decimal(word);
            &&& word.len() == 0 ==> r == answer_to_question(monitors, None)
            &&& word.len() > 0 && number is None ==> r is None
            &&& (word.len() > 0 && (number matches Some(n) && (n == -1 || 0 <= n <= i32::MAX
                && listed(n)))) ==> (r matches Some(idx) && Some(idx as int) == number)
            &&& (word.len() > 0 && (number matches Some(n) && !(n == -1 || 0 <= n <= i32::MAX
                && listed(n)))) ==> r is None
        }),
        ({
            let primary = |i: int| 0 <= i < monitors.len() && monitors[i].is_primary;
            &&& primary(k) && (forall|j: int| j < k ==> !#[trigger] primary(j)) && monitors[k].index
                <= i32::MAX ==> (answer_to_question(monitors, None) matches Some(idx) && idx
                == monitors[k].index)
            &&& (forall|j: int| !#[trigger] primary(j)) ==> answer_to_question(monitors, None)
                == Some(0i32)
        }),
{
    let word = text::trimmed(s);
    let primary = |i: int| 0 <= i < monitors.len() && monitors[i].is_primary;
    search::lemma_first_where(monitors, |m: MonitorSpec| m.is_primary);
    if let Some(p) = first_primary(monitors) {
        assert(primary(p));
    }
    if let Some(n) = decimal::signed_decimal(word) {
        search::lemma_first_where(monitors, |m: MonitorSpec| m.index == n);
    }
}

/// A monitor that does not exist is reported with its number exactly where it is
/// wanted and another one is there.
pub proof fn lemma_missing_monitor(monitors: Seq<MonitorSpec>, wanted: Option<i32>)
    ensures
        ({
            let listed = wanted is Some && exists|i: int|
                0 <= i < monitors.len() && (#[trigger] monitors[i]).index == wanted.unwrap();
            &&& missing_notice(monitors, wanted) is Some <==> wanted is Some && wanted.unwrap() >= 0
                && monitors.len() > 0 && !listed
            &&& missing_notice(monitors, wanted) matches Some(said) ==> said == "monitor index "@
                + decimal::decimal(wanted.unwrap() as int) + " not found, fallback to primary"@
        }),
{
    if let Some(idx) = wanted {
        search::lemma_first_where(monitors, |m: MonitorSpec| m.index == idx as int);
    }
}

/// Each monitor is listed on a line of its own, in order, below a line that
/// counts them. A line shows the number and the name, marks the primary monitor
/// between the name and the place, and shows place, size and scale of every
/// monitor alike.
pub proof fn lemma_monitors_are_listed(monitors: Seq<MonitorSpec>, i: int)
    requires
        0 <= i < monitors.len(),
    ensures
        ({
            let list = monitor_list(monitors);
            let m = monitors[i];
            let name = "  ["@ + decimal::decimal(m.index as int) + "] "@ + m.name@;
            let place = " pos=("@ + decimal::decimal(m.x as int) + ", "@ + decimal::decimal(
                m.y as int,
            ) + ") size="@ + decimal::decimal(m.width as int) + "x"@ + decimal::decimal(
                m.height as int,
            ) + " scale="@ + m.scale_factor@;
            &&& list.len() == monitors.len() + 1
            &&& list[0] == "detected "@ + decimal::decimal(monitors.len() as int)
                + " monitor(s):"@
            &&& !m.is_primary ==> list[i + 1] == name + place
            &&& m.is_primary ==> list[i + 1] == name + " (primary)"@ + place
        }),
{
    reveal_strlit("");
    let m = monitors[i];
    let name = "  ["@ + decimal::decimal(m.index as int) + "] "@ + m.name@;
    let place = " pos=("@ + decimal::decimal(m.x as int) + ", "@ + decimal::decimal(m.y as int)
        + ") size="@ + decimal::decimal(m.width as int) + "x"@ + decimal::decimal(m.height as int)
        + " scale="@ + m.scale_factor@;
    assert(monitor_list(monitors)[i + 1] == monitor_line(m));
    if m.is_primary {
        assert(monitor_line(m) =~= name + " (primary)"@ + place);
    } else {
        assert(monitor_line(m) =~= name + place);
    }
}

/// Of no monitors one line says so.
pub proof fn lemma_no_monitors_are_listed(monitors: Seq<MonitorSpec>)
    ensures
        monitors.len() == 0 ==> monitor_list(monitors) == seq!["no monitors found"@],
{
}

} // verus!
