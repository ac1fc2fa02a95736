//! The host sections of the agent output (disks, memory, CPU, network,
//! processes, ZFS and more), each made from what a system command printed.
use vstd::prelude::*;

use crate::agent::output::{local_line, section_line, string_views, AgentOutput};
use crate::pattern::{first_captures, is_match, regex_first_captures, regex_matches};
use crate::plugin::output::LocalState;
use crate::text::{
    append_chars, append_str, chars_of, contains_seq, contains_str, count_matches, count_str,
    decimal, decimal_u64, eq_str, is_blank, join_chars, join_seq, lines_of, lines_seq, lowercase,
    parse_u64, parse_u64_spec, replace_all, replace_str, split_once_spec, split_once_str,
    string_of, strip_prefix_spec, strip_prefix_str, to_lowercase, trim_chars, trim_end_chars,
    trim_end_seq, trim_seq, views, words_of, words_seq,
};

verus! {

pub open spec fn blank(s: Seq<char>) -> bool {
    trim_seq(s).len() == 0
}

/// A section holding the output as it is, its trailing blanks cut off;
/// nothing when the output is blank.
pub open spec fn raw_section(name: Seq<char>, data: Seq<char>) -> Seq<Seq<char>> {
    if blank(data) {
        Seq::empty()
    } else {
        seq![section_line(name)] + lines_seq(trim_end_seq(data))
    }
}

fn write_raw_section(out: &mut AgentOutput, name: &str, data: &str)
    ensures
        final(out)@ == old(out)@ + raw_section(name@, data@),
{
    let d = chars_of(data);
    if is_blank(d.as_slice()) {
        assert(old(out)@ + Seq::<Seq<char>>::empty() =~= old(out)@);
        return;
    }
    out.section(name);
    let t = string_of(trim_end_chars(d.as_slice()).as_slice());
    out.raw_block(t.as_str());
    assert(out@ =~= old(out)@ + raw_section(name@, data@));
}

/// `mount -p -t ufs`.
pub fn mounts(out: &mut AgentOutput, data: &str)
    ensures
        final(out)@ == old(out)@ + raw_section("mounts"@, data@),
{
    write_raw_section(out, "mounts", data);
}

/// `sshd -T`.
pub fn ssh(out: &mut AgentOutput, data: &str)
    ensures
        final(out)@ == old(out)@ + raw_section("sshd_config"@, data@),
{
    write_raw_section(out, "sshd_config", data);
}

/// `apcaccess`, after the `[[apcupsd.conf]]` marker.
pub open spec fn apcupsd_lines(data: Seq<char>) -> Seq<Seq<char>> {
    if blank(data) {
        Seq::empty()
    } else {
        seq![section_line("apcaccess:sep(58)"@), "[[apcupsd.conf]]"@] + lines_seq(trim_end_seq(data))
    }
}

pub fn apcupsd(out: &mut AgentOutput, data: &str)
    ensures
        final(out)@ == old(out)@ + apcupsd_lines(data@),
{
    let d = chars_of(data);
    if is_blank(d.as_slice()) {
        assert(old(out)@ + Seq::<Seq<char>>::empty() =~= old(out)@);
        return;
    }
    out.section("apcaccess:sep(58)");
    out.line("[[apcupsd.conf]]".to_string());
    let t = string_of(trim_end_chars(d.as_slice()).as_slice());
    out.raw_block(t.as_str());
    assert(out@ =~= old(out)@ + apcupsd_lines(data@));
}

/// `df -kTP -t ufs` without its header line.
pub open spec fn df_lines(data: Seq<char>) -> Seq<Seq<char>> {
    if blank(data) {
        Seq::empty()
    } else {
        seq![section_line("df"@)] + if lines_seq(data).len() > 0 {
            lines_seq(data).drop_first()
        } else {
            Seq::empty()
        }
    }
}

fn push_lines(out: &mut AgentOutput, lines: &Vec<Vec<char>>, from: usize)
    requires
        from <= lines.len(),
    ensures
        final(out)@ == old(out)@ + views(lines@).skip(from as int),
{
    let mut i: usize = from;
    while i < lines.len()
        invariant
            from <= i <= lines.len(),
            out@ == old(out)@ + views(lines@).subrange(from as int, i as int),
        decreases lines.len() - i,
    {
        out.line(string_of(lines[i].as_slice()));
        assert(views(lines@).subrange(from as int, i + 1) =~= views(lines@).subrange(
            from as int,
            i as int,
        ).push(lines@[i as int]@));
        i = i + 1;
    }
    assert(views(lines@).subrange(from as int, lines.len() as int) =~= views(lines@).skip(
        from as int,
    ));
}

pub fn df(out: &mut AgentOutput, data: &str)
    ensures
        final(out)@ == old(out)@ + df_lines(data@),
{
    let d = chars_of(data);
    if is_blank(d.as_slice()) {
        assert(old(out)@ + Seq::<Seq<char>>::empty() =~= old(out)@);
        return;
    }
    out.section("df");
    let lines = lines_of(d.as_slice());
    if lines.len() > 0 {
        push_lines(out, &lines, 1);
        assert(views(lines@).skip(1) =~= views(lines@).drop_first());
    }
    assert(out@ =~= old(out)@ + df_lines(data@));
}

/// The lines of `data` that do not contain `needle`, in order.
pub open spec fn lines_without(ls: Seq<Seq<char>>, needle: Seq<char>) -> Seq<Seq<char>>
    decreases ls.len(),
{
    if ls.len() == 0 {
        Seq::empty()
    } else if contains_seq(ls.last(), needle) {
        lines_without(ls.drop_last(), needle)
    } else {
        lines_without(ls.drop_last(), needle).push(ls.last())
    }
}

fn filter_lines(data: &str, needle: &str) -> (r: Vec<Vec<char>>)
    ensures
        views(r@) == lines_without(lines_seq(data@), needle@),
{
    let d = chars_of(data);
    let lines = lines_of(d.as_slice());
    let ghost lv = views(lines@);
    let mut r: Vec<Vec<char>> = Vec::new();
    let mut i: usize = 0;
    while i < lines.len()
        invariant
            i <= lines.len(),
            lv == views(lines@),
            views(r@) == lines_without(lv.take(i as int), needle@),
        decreases lines.len() - i,
    {
        assert(lv.take(i + 1).drop_last() =~= lv.take(i as int));
        assert(lv.take(i + 1).last() == lines@[i as int]@);
        if !contains_str(lines[i].as_slice(), needle) {
            let l = lines[i].clone();
            proof {
                crate::text::lemma_views_push(r@, l);
            }
            r.push(l);
        }
        i = i + 1;
    }
    assert(lv.take(lines.len() as int) =~= lv);
    r
}

/// `ipmitool sensor list` without the sensors that read `na`; nothing when
/// none is left.
pub open spec fn ipmi_lines(data: Seq<char>) -> Seq<Seq<char>> {
    let ls = lines_without(lines_seq(data), " na "@);
    if ls.len() == 0 {
        Seq::empty()
    } else {
        seq![section_line("ipmi:sep(124)"@)] + ls
    }
}

pub fn ipmi(out: &mut AgentOutput, data: &str)
    ensures
        final(out)@ == old(out)@ + ipmi_lines(data@),
{
    let ls = filter_lines(data, " na ");
    if ls.len() == 0 {
        assert(old(out)@ + Seq::<Seq<char>>::empty() =~= old(out)@);
        return;
    }
    out.section("ipmi:sep(124)");
    push_lines(out, &ls, 0);
    assert(views(ls@).skip(0) =~= views(ls@));
    assert(out@ =~= old(out)@ + ipmi_lines(data@));
}

/// `zpool status -x` without the line saying that there are no errors.
pub open spec fn zpool_lines(data: Seq<char>) -> Seq<Seq<char>> {
    if blank(data) {
        Seq::empty()
    } else {
        seq![section_line("zpool_status"@)] + lines_without(
            lines_seq(data),
            "errors: No known data errors"@,
        )
    }
}

pub fn zpool(out: &mut AgentOutput, data: &str)
    ensures
        final(out)@ == old(out)@ + zpool_lines(data@),
{
    let d = chars_of(data);
    if is_blank(d.as_slice()) {
        assert(old(out)@ + Seq::<Seq<char>>::empty() =~= old(out)@);
        return;
    }
    out.section("zpool_status");
    let ls = filter_lines(data, "errors: No known data errors");
    push_lines(out, &ls, 0);
    assert(views(ls@).skip(0) =~= views(ls@));
    assert(out@ =~= old(out)@ + zpool_lines(data@));
}

/// The `(user,vsz,rss,pcpu) command` line of a `ps` row, none for a row
/// with fewer than six columns.
pub open spec fn ps_line(l: Seq<char>) -> Option<Seq<char>> {
    let w = words_seq(l);
    if w.len() < 6 {
        None
    } else {
        Some(
            "("@ + w[1] + ","@ + w[2] + ","@ + w[3] + ","@ + w[4] + ") "@ + join_seq(
                w.skip(5),
                seq![' '],
            ),
        )
    }
}

pub open spec fn mapped_lines(ls: Seq<Seq<char>>, f: spec_fn(Seq<char>) -> Option<Seq<char>>) -> Seq<Seq<char>>
    decreases ls.len(),
{
    if ls.len() == 0 {
        Seq::empty()
    } else {
        match f(ls.last()) {
            Some(x) => mapped_lines(ls.drop_last(), f).push(x),
            None => mapped_lines(ls.drop_last(), f),
        }
    }
}

/// `ps ax -o state,user,vsz,rss,pcpu,command` without its header line.
pub open spec fn ps_lines(data: Seq<char>) -> Seq<Seq<char>> {
    if blank(data) {
        Seq::empty()
    } else {
        seq![section_line("ps"@)] + mapped_lines(
            if lines_seq(data).len() > 0 {
                lines_seq(data).drop_first()
            } else {
                Seq::empty()
            },
            |l: Seq<char>| ps_line(l),
        )
    }
}

fn read_ps_line(l: &[char]) -> (r: Option<Vec<char>>)
    ensures
        match r {
            Some(v) => ps_line(l@) == Some(v@),
            None => ps_line(l@) is None,
        },
{
    let w = words_of(l);
    if w.len() < 6 {
        return None;
    }
    let ghost wv = views(w@);
    let mut rest: Vec<Vec<char>> = Vec::new();
    let mut k: usize = 5;
    while k < w.len()
        invariant
            5 <= k <= w.len(),
            wv == views(w@),
            views(rest@) == wv.subrange(5, k as int),
        decreases w.len() - k,
    {
        let x = w[k].clone();
        proof {
            crate::text::lemma_views_push(rest@, x);
            assert(wv.subrange(5, k + 1) =~= wv.subrange(5, k as int).push(w@[k as int]@));
        }
        rest.push(x);
        k = k + 1;
    }
    assert(wv.subrange(5, w.len() as int) =~= wv.skip(5));
    let command = join_chars(&rest, " ");
    let mut s = chars_of("(");
    append_chars(&mut s, w[1].as_slice());
    s.push(',');
    append_chars(&mut s, w[2].as_slice());
    s.push(',');
    append_chars(&mut s, w[3].as_slice());
    s.push(',');
    append_chars(&mut s, w[4].as_slice());
    append_str(&mut s, ") ");
    append_chars(&mut s, command.as_slice());
    proof {
        reveal_strlit(" ");
        assert((" ")@ =~= seq![' ']);
        reveal_strlit(",");
        assert((",")@ =~= seq![',']);
        assert(wv[1] == w@[1]@);
        assert(wv[2] == w@[2]@);
        assert(wv[3] == w@[3]@);
        assert(wv[4] == w@[4]@);
        assert(wv == words_seq(l@));
        assert(command@ == join_seq(wv.skip(5), seq![' ']));
        assert(s@ =~= ps_line(l@)->0);
    }
    Some(s)
}

pub fn ps(out: &mut AgentOutput, data: &str)
    ensures
        final(out)@ == old(out)@ + ps_lines(data@),
{
    let d = chars_of(data);
    if is_blank(d.as_slice()) {
        assert(old(out)@ + Seq::<Seq<char>>::empty() =~= old(out)@);
        return;
    }
    out.section("ps");
    let ghost head = out@;
    let lines = lines_of(d.as_slice());
    let ghost body: Seq<Seq<char>> = if views(lines@).len() > 0 {
        views(lines@).drop_first()
    } else {
        Seq::empty()
    };
    let mut i: usize = 1;
    while i < lines.len()
        invariant
            1 <= i,
            i <= lines.len() || lines.len() == 0,
            lines.len() > 0 ==> body == views(lines@).drop_first(),
            lines.len() > 0 ==> out@ == head + mapped_lines(body.take(i - 1), |l: Seq<char>| ps_line(l)),
            lines.len() == 0 ==> out@ == head,
        decreases lines.len() - i,
    {
        assert(body.take(i as int).drop_last() =~= body.take(i - 1));
        assert(body.take(i as int).last() == lines@[i as int]@);
        match read_ps_line(lines[i].as_slice()) {
            Some(s) => out.line(string_of(s.as_slice())),
            None => {},
        }
        i = i + 1;
    }
    proof {
        if lines.len() > 0 {
            assert(body.take(lines.len() - 1) =~= body);
        } else {
            assert(mapped_lines(body, |l: Seq<char>| ps_line(l)) =~= Seq::<Seq<char>>::empty());
        }
    }
    assert(out@ =~= old(out)@ + ps_lines(data@));
}

/// `ESTABLISHED n` and `LISTEN n`: how often each word occurs in
/// `netstat -na`.
pub open spec fn tcp_lines(data: Seq<char>) -> Seq<Seq<char>> {
    if blank(data) {
        Seq::empty()
    } else {
        seq![
            section_line("tcp_conn_stats"@),
            "ESTABLISHED "@ + decimal(count_matches(data, "ESTABLISHED"@)),
            "LISTEN "@ + decimal(count_matches(data, "LISTEN"@)),
        ]
    }
}

pub fn tcp(out: &mut AgentOutput, data: &str)
    ensures
        final(out)@ == old(out)@ + tcp_lines(data@),
{
    let d = chars_of(data);
    if is_blank(d.as_slice()) {
        assert(old(out)@ + Seq::<Seq<char>>::empty() =~= old(out)@);
        return;
    }
    proof {
        reveal_strlit("ESTABLISHED");
        reveal_strlit("LISTEN");
    }
    let established = count_str(d.as_slice(), "ESTABLISHED");
    let listen = count_str(d.as_slice(), "LISTEN");
    out.section("tcp_conn_stats");
    let mut a = chars_of("ESTABLISHED ");
    append_chars(&mut a, decimal_u64(established as u64).as_slice());
    let mut b = chars_of("LISTEN ");
    append_chars(&mut b, decimal_u64(listen as u64).as_slice());
    out.line(string_of(a.as_slice()));
    out.line(string_of(b.as_slice()));
    assert(out@ =~= old(out)@ + tcp_lines(data@));
}


/// The position of the first `x` in `w` from `i` on.
pub open spec fn first_pos(w: Seq<Seq<char>>, x: Seq<char>, i: int) -> Option<int>
    decreases w.len() - i,
{
    if i < 0 || i >= w.len() {
        None
    } else if w[i] == x {
        Some(i)
    } else {
        first_pos(w, x, i + 1)
    }
}

/// The counters line of a `netstat -inb` row of a link-level interface
/// other than the loopbacks; none for the header and other rows.
pub open spec fn netctr_line(l: Seq<char>) -> Option<Seq<char>> {
    let w = words_seq(l);
    if w.len() < 12 || w[0] == "Name"@ || w[0] == "lo"@ || w[0] == "plip"@ {
        None
    } else {
        match first_pos(w, "Link"@, 0) {
            None => None,
            Some(p) => if w.len() <= p + 8 {
                None
            } else {
                Some(
                    w[0] + " "@ + w[p + 5] + " "@ + w[p + 2] + " "@ + w[p + 3] + " "@ + w[p + 4]
                        + " 0 0 0 0 "@ + w[p + 8] + " "@ + w[p + 6] + " "@ + w[p + 7]
                        + " 0 0 0 0 0"@,
                )
            },
        }
    }
}

pub open spec fn netctr_lines(data: Seq<char>) -> Seq<Seq<char>> {
    if blank(data) {
        Seq::empty()
    } else {
        seq![section_line("netctr"@)] + mapped_lines(lines_seq(data), |l: Seq<char>| netctr_line(l))
    }
}

fn read_netctr_line(l: &[char]) -> (r: Option<Vec<char>>)
    ensures
        match r {
            Some(v) => netctr_line(l@) == Some(v@),
            None => netctr_line(l@) is None,
        },
{
    let w = words_of(l);
    let ghost wv = views(w@);
    assert(wv == words_seq(l@));
    if w.len() < 12 || eq_str(w[0].as_slice(), "Name") || eq_str(w[0].as_slice(), "lo") || eq_str(
        w[0].as_slice(),
        "plip",
    ) {
        assert(w.len() >= 1 ==> wv[0] == w@[0]@);
        return None;
    }
    assert(wv[0] == w@[0]@);
    let mut p: usize = 0;
    while p < w.len() && !eq_str(w[p].as_slice(), "Link")
        invariant
            p <= w.len(),
            wv == views(w@),
            first_pos(wv, "Link"@, 0) == first_pos(wv, "Link"@, p as int),
        decreases w.len() - p,
    {
        assert(wv[p as int] == w@[p as int]@);
        p = p + 1;
    }
    if p == w.len() {
        return None;
    }
    assert(wv[p as int] == w@[p as int]@);
    if w.len() - p <= 8 {
        return None;
    }
    let mut s = w[0].clone();
    s.push(' ');
    append_chars(&mut s, w[p + 5].as_slice());
    s.push(' ');
    append_chars(&mut s, w[p + 2].as_slice());
    s.push(' ');
    append_chars(&mut s, w[p + 3].as_slice());
    s.push(' ');
    append_chars(&mut s, w[p + 4].as_slice());
    append_str(&mut s, " 0 0 0 0 ");
    append_chars(&mut s, w[p + 8].as_slice());
    s.push(' ');
    append_chars(&mut s, w[p + 6].as_slice());
    s.push(' ');
    append_chars(&mut s, w[p + 7].as_slice());
    append_str(&mut s, " 0 0 0 0 0");
    proof {
        reveal_strlit(" ");
        assert((" ")@ =~= seq![' ']);
        assert(wv[p + 2] == w@[p + 2]@);
        assert(wv[p + 3] == w@[p + 3]@);
        assert(wv[p + 4] == w@[p + 4]@);
        assert(wv[p + 5] == w@[p + 5]@);
        assert(wv[p + 6] == w@[p + 6]@);
        assert(wv[p + 7] == w@[p + 7]@);
        assert(wv[p + 8] == w@[p + 8]@);
        assert(s@ =~= netctr_line(l@)->0);
    }
    Some(s)
}

pub fn netctr(out: &mut AgentOutput, data: &str)
    ensures
        final(out)@ == old(out)@ + netctr_lines(data@),
{
    let d = chars_of(data);
    if is_blank(d.as_slice()) {
        assert(old(out)@ + Seq::<Seq<char>>::empty() =~= old(out)@);
        return;
    }
    out.section("netctr");
    let ghost head = out@;
    let lines = lines_of(d.as_slice());
    let ghost lv = views(lines@);
    let mut i: usize = 0;
    while i < lines.len()
        invariant
            i <= lines.len(),
            lv == views(lines@),
            out@ == head + mapped_lines(lv.take(i as int), |l: Seq<char>| netctr_line(l)),
        decreases lines.len() - i,
    {
        assert(lv.take(i + 1).drop_last() =~= lv.take(i as int));
        assert(lv.take(i + 1).last() == lines@[i as int]@);
        match read_netctr_line(lines[i].as_slice()) {
            Some(v) => out.line(string_of(v.as_slice())),
            None => {},
        }
        i = i + 1;
    }
    assert(lv.take(lines.len() as int) =~= lv);
    assert(out@ =~= old(out)@ + netctr_lines(data@));
}


/// An `ntpq -np` peer line as the agent writes it: the tally code, a blank,
/// then the rest of the line (nothing when the code is not one byte long).
pub open spec fn ntp_line(l: Seq<char>) -> Option<Seq<char>> {
    if blank(l) {
        None
    } else {
        Some(seq![l[0]] + seq![' '] + if (l[0] as u32) < 0x80 {
            l.drop_first()
        } else {
            Seq::empty()
        })
    }
}

/// The peers of `ntpq -np`, its two header lines left out.
pub open spec fn ntp_lines(data: Seq<char>) -> Seq<Seq<char>> {
    if blank(data) {
        Seq::empty()
    } else {
        seq![section_line("ntp"@)] + mapped_lines(
            if lines_seq(data).len() >= 2 {
                lines_seq(data).skip(2)
            } else {
                Seq::empty()
            },
            |l: Seq<char>| ntp_line(l),
        )
    }
}

pub fn ntp(out: &mut AgentOutput, data: &str)
    ensures
        final(out)@ == old(out)@ + ntp_lines(data@),
{
    let d = chars_of(data);
    if is_blank(d.as_slice()) {
        assert(old(out)@ + Seq::<Seq<char>>::empty() =~= old(out)@);
        return;
    }
    out.section("ntp");
    let ghost head = out@;
    let lines = lines_of(d.as_slice());
    let ghost lv = views(lines@);
    let ghost body: Seq<Seq<char>> = if lv.len() >= 2 {
        lv.skip(2)
    } else {
        Seq::empty()
    };
    let mut i: usize = 2;
    while i < lines.len()
        invariant
            2 <= i,
            lv == views(lines@),
            lines.len() >= 2 ==> i <= lines.len() && body == lv.skip(2),
            lines.len() >= 2 ==> out@ == head + mapped_lines(body.take(i - 2), |l: Seq<char>| ntp_line(l)),
            lines.len() < 2 ==> out@ == head,
        decreases lines.len() - i,
    {
        assert(body.take(i - 1).drop_last() =~= body.take(i - 2));
        assert(body.take(i - 1).last() == lines@[i as int]@);
        let l = &lines[i];
        if !is_blank(l.as_slice()) {
            let c = l[0];
            let mut s: Vec<char> = Vec::new();
            s.push(c);
            s.push(' ');
            if (c as u32) < 0x80 {
                append_chars(&mut s, crate::text::sub_chars(l.as_slice(), 1, l.len()).as_slice());
            }
            assert(s@ =~= ntp_line(l@)->0);
            out.line(string_of(s.as_slice()));
        }
        i = i + 1;
    }
    proof {
        if lines.len() >= 2 {
            assert(body.take(lines.len() - 2) =~= body);
        } else {
            assert(mapped_lines(body, |l: Seq<char>| ntp_line(l)) =~= Seq::<Seq<char>>::empty());
        }
    }
    assert(out@ =~= old(out)@ + ntp_lines(data@));
}

/// The host is a virtual machine when the kernel messages mention a
/// hypervisor (in any case).
pub open spec fn labels_lines(dmesg: Seq<char>) -> Seq<Seq<char>> {
    if contains_seq(lowercase(dmesg), "hypervisor:"@) {
        seq![section_line("labels:sep(0)"@), "{\"cmk/device_type\":\"vm\"}"@]
    } else {
        Seq::empty()
    }
}

pub fn labels(out: &mut AgentOutput, dmesg: &str)
    ensures
        final(out)@ == old(out)@ + labels_lines(dmesg@),
{
    let lower = to_lowercase(dmesg);
    if contains_str(chars_of(lower.as_str()).as_slice(), "hypervisor:") {
        out.section("labels:sep(0)");
        out.line("{\"cmk/device_type\":\"vm\"}".to_string());
    }
    assert(out@ =~= old(out)@ + labels_lines(dmesg@));
}

/// The firmware row of the host checks: the product version, `unknown`
/// when the version file has none.
pub open spec fn firmware_lines(version: Option<Seq<char>>) -> Seq<Seq<char>> {
    seq![
        section_line("local:sep(0)"@),
        local_line(
            LocalState::Okay,
            "Firmware"@,
            "update_available=0"@,
            "Version "@ + match version {
                Some(v) => v,
                None => "unknown"@,
            },
        ),
    ]
}

pub fn firmware_local(out: &mut AgentOutput, product_version: &Option<String>)
    ensures
        final(out)@ == old(out)@ + firmware_lines(crate::pattern::opt_view(*product_version)),
{
    out.section("local:sep(0)");
    let mut sm = chars_of("Version ");
    match product_version {
        Some(v) => append_str(&mut sm, v.as_str()),
        None => append_str(&mut sm, "unknown"),
    }
    let sms = string_of(sm.as_slice());
    out.local(LocalState::Okay, "Firmware", "update_available=0", sms.as_str());
    assert(out@ =~= old(out)@ + firmware_lines(crate::pattern::opt_view(*product_version)));
}

/// The boot time in `sysctl -n kern.boottime`.
pub const BOOTTIME_PATTERN: &'static str = "sec = (\\d+)";

/// The boot time that the groups of the boot-time match give (none when
/// there is no match, or its number does not fit in a `u64`).
pub open spec fn epoch_of_groups(g: Option<Seq<Option<Seq<char>>>>) -> Option<u64> {
    match g {
        Some(g) => if g.len() >= 2 && g[1] is Some {
            parse_u64_spec(g[1]->0)
        } else {
            None
        },
        None => None,
    }
}

pub open spec fn boot_epoch(boottime: Seq<char>) -> Option<u64> {
    epoch_of_groups(regex_first_captures(BOOTTIME_PATTERN@, boottime))
}

/// The seconds since boot at `now`, for the boot time `epoch` (nothing when
/// it is unknown; none counted when the clock is behind it).
pub open spec fn uptime_lines_from(epoch: Option<u64>, now: u64) -> Seq<Seq<char>> {
    match epoch {
        Some(e) => seq![
            section_line("uptime"@),
            decimal((if now >= e {
                now - e
            } else {
                0
            }) as nat) + " 0"@,
        ],
        None => Seq::empty(),
    }
}

pub open spec fn uptime_lines(boottime: Seq<char>, now: u64) -> Seq<Seq<char>> {
    uptime_lines_from(boot_epoch(boottime), now)
}

/// Writes the uptime section from the groups of the boot-time match.
pub fn write_uptime(out: &mut AgentOutput, groups: &Option<Vec<Option<String>>>, now: u64)
    ensures
        final(out)@ == old(out)@ + uptime_lines_from(epoch_of_groups(crate::pattern::opt_groups(*groups)), now),
{
    let epoch = match groups {
        Some(g) => if g.len() >= 2 {
            match &g[1] {
                Some(c) => parse_u64(chars_of(c.as_str()).as_slice()),
                None => None,
            }
        } else {
            None
        },
        None => None,
    };
    match epoch {
        Some(e) => {
            let up = now.saturating_sub(e);
            out.section("uptime");
            let mut l = decimal_u64(up);
            append_str(&mut l, " 0");
            out.line(string_of(l.as_slice()));
        },
        None => {},
    }
    assert(out@ =~= old(out)@ + uptime_lines_from(epoch_of_groups(crate::pattern::opt_groups(*groups)), now));
}

/// `sysctl -n kern.boottime` read at `now`: the seconds since boot.
pub fn uptime(out: &mut AgentOutput, boottime: &str, now: u64)
    ensures
        final(out)@ == old(out)@ + uptime_lines(boottime@, now),
{
    let groups = first_captures(BOOTTIME_PATTERN, boottime);
    write_uptime(out, &groups, now);
}

/// The ZFS sections: the file systems, the ZFS `df` (when it ran), and the
/// ARC statistics with their prefix cut and `: ` written ` = ` (when any).
pub open spec fn zfs_lines(zfs_get: Seq<char>, df: Option<Seq<char>>, arc: Option<Seq<char>>) -> Seq<Seq<char>> {
    if blank(zfs_get) {
        Seq::empty()
    } else {
        seq![section_line("zfsget"@)] + lines_seq(trim_end_seq(zfs_get)) + seq!["[df]"@] + match df {
            Some(d) => lines_seq(trim_end_seq(d)),
            None => Seq::empty(),
        } + match arc {
            Some(a) => if blank(a) {
                Seq::empty()
            } else {
                seq![section_line("zfs_arc_cache"@)] + lines_seq(
                    replace_all(replace_all(a, "kstat.zfs.misc.arcstats."@, Seq::empty()), ": "@, " = "@),
                )
            },
            None => Seq::empty(),
        }
    }
}

pub fn zfs(out: &mut AgentOutput, zfs_get: &str, df: Option<&str>, arc: Option<&str>)
    ensures
        final(out)@ == old(out)@ + zfs_lines(
            zfs_get@,
            match df {
                Some(d) => Some(d@),
                None => None,
            },
            match arc {
                Some(a) => Some(a@),
                None => None,
            },
        ),
{
    let z = chars_of(zfs_get);
    if is_blank(z.as_slice()) {
        assert(old(out)@ + Seq::<Seq<char>>::empty() =~= old(out)@);
        return;
    }
    out.section("zfsget");
    out.raw_block(string_of(trim_end_chars(z.as_slice()).as_slice()).as_str());
    out.line("[df]".to_string());
    let ghost after_df_marker = out@;
    match df {
        Some(d) => {
            out.raw_block(string_of(trim_end_chars(chars_of(d).as_slice()).as_slice()).as_str());
        },
        None => {},
    }
    let ghost after_df = out@;
    match arc {
        Some(a) => {
            let ac = chars_of(a);
            if !is_blank(ac.as_slice()) {
                out.section("zfs_arc_cache");
                proof {
                    reveal_strlit("kstat.zfs.misc.arcstats.");
                    reveal_strlit(": ");
                }
                let r1 = replace_str(ac.as_slice(), "kstat.zfs.misc.arcstats.", "");
                let r2 = replace_str(r1.as_slice(), ": ", " = ");
                proof {
                    reveal_strlit("");
                    assert(("")@ =~= Seq::<char>::empty());
                }
                out.raw_block(string_of(r2.as_slice()).as_str());
            }
        },
        None => {},
    }
    assert(out@ =~= old(out)@ + zfs_lines(
        zfs_get@,
        match df {
            Some(d) => Some(d@),
            None => None,
        },
        match arc {
            Some(a) => Some(a@),
            None => None,
        },
    ));
}

/// The directories the header reports.
pub struct AgentDirs {
    pub config_dir: String,
    pub var: String,
    pub spool: String,
    pub plugins: String,
    pub local: String,
}

/// The `check_mk` header section.
pub open spec fn header_lines(
    product_name: Option<Seq<char>>,
    version: Seq<char>,
    hostname: Seq<char>,
    dirs: AgentDirs,
) -> Seq<Seq<char>> {
    seq![
        section_line("check_mk"@),
        "AgentOS: "@ + match product_name {
            Some(n) => n,
            None => "OPNsense"@,
        },
        "Version: "@ + version,
        "Hostname: "@ + trim_seq(hostname),
        "AgentDirectory: "@ + dirs.config_dir@,
        "DataDirectory: "@ + dirs.var@,
        "SpoolDirectory: "@ + dirs.spool@,
        "PluginsDirectory: "@ + dirs.plugins@,
        "LocalDirectory: "@ + dirs.local@,
    ]
}

fn labelled(label: &str, value: &str) -> (r: String)
    ensures
        r@ == label@ + value@,
{
    let mut l = chars_of(label);
    append_str(&mut l, value);
    string_of(l.as_slice())
}

/// Writes the header; `hostname` is what `hostname` printed.
pub fn checkmk_header(
    out: &mut AgentOutput,
    product_name: &Option<String>,
    version: &str,
    hostname: &str,
    dirs: &AgentDirs,
)
    ensures
        final(out)@ == old(out)@ + header_lines(
            crate::pattern::opt_view(*product_name),
            version@,
            hostname@,
            *dirs,
        ),
{
    out.section("check_mk");
    let os: &str = match product_name {
        Some(n) => n.as_str(),
        None => "OPNsense",
    };
    out.line(labelled("AgentOS: ", os));
    out.line(labelled("Version: ", version));
    let h = string_of(trim_chars(chars_of(hostname).as_slice()).as_slice());
    out.line(labelled("Hostname: ", h.as_str()));
    out.line(labelled("AgentDirectory: ", dirs.config_dir.as_str()));
    out.line(labelled("DataDirectory: ", dirs.var.as_str()));
    out.line(labelled("SpoolDirectory: ", dirs.spool.as_str()));
    out.line(labelled("PluginsDirectory: ", dirs.plugins.as_str()));
    out.line(labelled("LocalDirectory: ", dirs.local.as_str()));
    assert(out@ =~= old(out)@ + header_lines(
        crate::pattern::opt_view(*product_name),
        version@,
        hostname@,
        *dirs,
    ));
}


// ---------------------------------------------------------------------------
// CPU.

pub open spec fn is_brace(c: char) -> bool {
    c == '{' || c == '}'
}

pub open spec fn brace_trim_start(s: Seq<char>) -> Seq<char>
    decreases s.len(),
{
    if s.len() > 0 && is_brace(s[0]) {
        brace_trim_start(s.drop_first())
    } else {
        s
    }
}

pub open spec fn brace_trim_end(s: Seq<char>) -> Seq<char>
    decreases s.len(),
{
    if s.len() > 0 && is_brace(s.last()) {
        brace_trim_end(s.drop_last())
    } else {
        s
    }
}

/// `s` without the braces around it (`str::trim_matches` with `{` and `}`).
pub open spec fn brace_trim(s: Seq<char>) -> Seq<char> {
    brace_trim_end(brace_trim_start(s))
}

fn trim_braces(s: &[char]) -> (r: Vec<char>)
    ensures
        r@ == brace_trim(s@),
{
    let mut a: usize = 0;
    assert(s@.skip(0) =~= s@);
    while a < s.len() && (s[a] == '{' || s[a] == '}')
        invariant
            a <= s.len(),
            brace_trim_start(s@) == brace_trim_start(s@.skip(a as int)),
        decreases s.len() - a,
    {
        assert(s@.skip(a as int).drop_first() =~= s@.skip(a + 1));
        a = a + 1;
    }
    let mut b: usize = s.len();
    assert(s@.skip(a as int).take(b - a) =~= s@.skip(a as int));
    while b > a && (s[b - 1] == '{' || s[b - 1] == '}')
        invariant
            a <= b <= s.len(),
            brace_trim_start(s@) == s@.skip(a as int),
            brace_trim(s@) == brace_trim_end(s@.subrange(a as int, b as int)),
        decreases b,
    {
        assert(s@.subrange(a as int, b as int).drop_last() =~= s@.subrange(a as int, b - 1));
        b = b - 1;
    }
    crate::text::sub_chars(s, a, b)
}

/// The processes column: `running/total` from the second line of `top`.
pub open spec fn proc_column(top: Seq<char>) -> Seq<char> {
    let ls = lines_seq(top);
    if ls.len() > 1 && words_seq(ls[1]).len() > 3 {
        words_seq(ls[1])[3] + "/"@ + words_seq(ls[1])[0]
    } else {
        "0/0"@
    }
}

/// The `cpu` section: load averages, processes, the last pid and the number
/// of CPUs.
pub open spec fn cpu_lines(loadavg: Seq<char>, top: Seq<char>, lastpid: Seq<char>, ncpu: Seq<char>) -> Seq<Seq<char>> {
    if blank(loadavg) {
        Seq::empty()
    } else {
        seq![
            section_line("cpu"@),
            brace_trim(trim_seq(loadavg)) + " "@ + proc_column(top) + " "@ + trim_seq(lastpid) + " "@
                + trim_seq(ncpu),
        ]
    }
}

pub fn cpu(out: &mut AgentOutput, loadavg: &str, top: &str, lastpid: &str, ncpu: &str)
    ensures
        final(out)@ == old(out)@ + cpu_lines(loadavg@, top@, lastpid@, ncpu@),
{
    let l = chars_of(loadavg);
    if is_blank(l.as_slice()) {
        assert(old(out)@ + Seq::<Seq<char>>::empty() =~= old(out)@);
        return;
    }
    let lines = lines_of(chars_of(top).as_slice());
    let mut proc_col = chars_of("0/0");
    if lines.len() > 1 {
        let w = words_of(lines[1].as_slice());
        assert(views(lines@)[1] == lines@[1]@);
        if w.len() > 3 {
            assert(views(w@)[0] == w@[0]@);
            assert(views(w@)[3] == w@[3]@);
            proc_col = w[3].clone();
            append_str(&mut proc_col, "/");
            append_chars(&mut proc_col, w[0].as_slice());
        }
    }
    assert(proc_col@ =~= proc_column(top@));
    let mut line = trim_braces(trim_chars(l.as_slice()).as_slice());
    append_str(&mut line, " ");
    append_chars(&mut line, proc_col.as_slice());
    append_str(&mut line, " ");
    append_chars(&mut line, trim_chars(chars_of(lastpid).as_slice()).as_slice());
    append_str(&mut line, " ");
    append_chars(&mut line, trim_chars(chars_of(ncpu).as_slice()).as_slice());
    out.section("cpu");
    out.line(string_of(line.as_slice()));
    assert(out@ =~= old(out)@ + cpu_lines(loadavg@, top@, lastpid@, ncpu@));
}

// ---------------------------------------------------------------------------
// `sysctl` output.

/// The `key: value` pairs of `sysctl` output, in order.
pub open spec fn sysctl_entries(ls: Seq<Seq<char>>) -> Seq<(Seq<char>, Seq<char>)>
    decreases ls.len(),
{
    if ls.len() == 0 {
        Seq::empty()
    } else {
        match split_once_spec(ls.last(), ": "@) {
            Some(kv) => sysctl_entries(ls.drop_last()).push(kv),
            None => sysctl_entries(ls.drop_last()),
        }
    }
}

pub fn parse_sysctl_colon(data: &str) -> (r: Vec<(String, String)>)
    ensures
        crate::checks::opnsense::unbound::entry_views(r@) == sysctl_entries(lines_seq(data@)),
{
    let lines = lines_of(chars_of(data).as_slice());
    let ghost lv = views(lines@);
    let mut r: Vec<(String, String)> = Vec::new();
    let mut i: usize = 0;
    while i < lines.len()
        invariant
            i <= lines.len(),
            lv == views(lines@),
            crate::checks::opnsense::unbound::entry_views(r@) == sysctl_entries(lv.take(i as int)),
        decreases lines.len() - i,
    {
        assert(lv.take(i + 1).drop_last() =~= lv.take(i as int));
        assert(lv.take(i + 1).last() == lines@[i as int]@);
        match split_once_str(lines[i].as_slice(), ": ") {
            Some((k, v)) => {
                let e = (string_of(k.as_slice()), string_of(v.as_slice()));
                let ghost ev = (e.0@, e.1@);
                r.push(e);
                assert(crate::checks::opnsense::unbound::entry_views(r@) =~= sysctl_entries(
                    lv.take(i as int),
                ).push(ev));
            },
            None => {},
        }
        i = i + 1;
    }
    assert(lv.take(lines.len() as int) =~= lv);
    r
}

/// The value of the first line that starts with `key` and has `: ` after
/// it.
pub open spec fn first_value(ls: Seq<Seq<char>>, key: Seq<char>) -> Option<Seq<char>>
    decreases ls.len(),
{
    if ls.len() == 0 {
        None
    } else {
        match strip_prefix_spec(ls[0], key) {
            Some(rest) => match split_once_spec(rest, ": "@) {
                Some((_, v)) => Some(v),
                None => first_value(ls.drop_first(), key),
            },
            None => first_value(ls.drop_first(), key),
        }
    }
}

/// A page count of `vm.stats`: the value of its first line, 0 when missing
/// or not a number.
pub open spec fn page_count(stats: Seq<char>, key: Seq<char>) -> nat {
    match first_value(lines_seq(stats), key) {
        Some(v) => match parse_u64_spec(v) {
            Some(n) => n as nat,
            None => 0,
        },
        None => 0,
    }
}

fn read_page_count(lines: &Vec<Vec<char>>, key: &str) -> (r: u64)
    ensures
        r == match first_value(views(lines@), key@) {
            Some(v) => match parse_u64_spec(v) {
                Some(n) => n,
                None => 0,
            },
            None => 0,
        },
{
    let ghost lv = views(lines@);
    let mut i: usize = 0;
    assert(lv.skip(0) =~= lv);
    while i < lines.len()
        invariant
            i <= lines.len(),
            lv == views(lines@),
            first_value(lv, key@) == first_value(lv.skip(i as int), key@),
        decreases lines.len() - i,
    {
        assert(lv.skip(i as int)[0] == lines@[i as int]@);
        assert(lv.skip(i as int).drop_first() =~= lv.skip(i + 1));
        match strip_prefix_str(lines[i].as_slice(), key) {
            Some(rest) => match split_once_str(rest.as_slice(), ": ") {
                Some((_, v)) => {
                    return match parse_u64(v.as_slice()) {
                        Some(n) => n,
                        None => 0,
                    };
                },
                None => {},
            },
            None => {},
        }
        i = i + 1;
    }
    0
}

/// The page size `sysctl -n hw.pagesize` printed, 0 when unreadable.
pub open spec fn page_size(output: Seq<char>) -> nat {
    match parse_u64_spec(trim_seq(output)) {
        Some(n) => n as nat,
        None => 0,
    }
}

/// The memory figures in bytes: cache, free, inactive, total.
pub open spec fn mem_bytes(pagesize: Seq<char>, stats: Seq<char>) -> (nat, nat, nat, nat) {
    let p = page_size(pagesize);
    (
        page_count(stats, "vm.stats.vm.v_cache_count"@) * p,
        page_count(stats, "vm.stats.vm.v_free_count"@) * p,
        page_count(stats, "vm.stats.vm.v_inactive_count"@) * p,
        page_count(stats, "vm.stats.vm.v_page_count"@) * p,
    )
}

/// The figures fit in 64 bits, and so does cache + free + inactive.
pub open spec fn mem_fits(pagesize: Seq<char>, stats: Seq<char>) -> bool {
    let m = mem_bytes(pagesize, stats);
    m.0 <= u64::MAX && m.1 <= u64::MAX && m.2 <= u64::MAX && m.3 <= u64::MAX && m.0 + m.1 + m.2
        <= u64::MAX
}

/// The `statgrab_mem` section (no swap): nothing when the page size or the
/// statistics are missing.
pub open spec fn mem_lines(pagesize: Seq<char>, stats: Seq<char>) -> Seq<Seq<char>> {
    let m = mem_bytes(pagesize, stats);
    let used: nat = if m.3 >= m.0 + m.1 + m.2 {
        (m.3 - (m.0 + m.1 + m.2)) as nat
    } else {
        0
    };
    if page_size(pagesize) == 0 || blank(stats) {
        Seq::empty()
    } else {
        seq![
            section_line("statgrab_mem"@),
            "mem.cache "@ + decimal(m.0),
            "mem.free "@ + decimal(m.1),
            "mem.total "@ + decimal(m.3),
            "mem.used "@ + decimal(used),
            "swap.free 0"@,
            "swap.total 0"@,
            "swap.used 0"@,
        ]
    }
}

fn mul_checked(a: u64, b: u64) -> (r: Option<u64>)
    ensures
        match r {
            Some(v) => v == a * b,
            None => a * b > u64::MAX,
        },
{
    a.checked_mul(b)
}

/// Writes the memory section. When a figure would not fit in 64 bits
/// nothing is written and the result is false.
pub fn mem(out: &mut AgentOutput, pagesize: &str, stats: &str) -> (r: bool)
    ensures
        r == (page_size(pagesize@) == 0 || blank(stats@) || mem_fits(pagesize@, stats@)),
        final(out)@ == if r {
            old(out)@ + mem_lines(pagesize@, stats@)
        } else {
            old(out)@
        },
{
    let p = match parse_u64(trim_chars(chars_of(pagesize).as_slice()).as_slice()) {
        Some(n) => n,
        None => 0,
    };
    let sc = chars_of(stats);
    if p == 0 || is_blank(sc.as_slice()) {
        assert(old(out)@ + Seq::<Seq<char>>::empty() =~= old(out)@);
        return true;
    }
    let lines = lines_of(sc.as_slice());
    let cache = mul_checked(read_page_count(&lines, "vm.stats.vm.v_cache_count"), p);
    let free = mul_checked(read_page_count(&lines, "vm.stats.vm.v_free_count"), p);
    let inactive = mul_checked(read_page_count(&lines, "vm.stats.vm.v_inactive_count"), p);
    let total = mul_checked(read_page_count(&lines, "vm.stats.vm.v_page_count"), p);
    let (cache, free, inactive, total) = match (cache, free, inactive, total) {
        (Some(a), Some(b), Some(c), Some(d)) => (a, b, c, d),
        _ => return false,
    };
    if cache as u128 + free as u128 + inactive as u128 > u64::MAX as u128 {
        return false;
    }
    let sum: u64 = cache + free + inactive;
    let used = total.saturating_sub(sum);
    out.section("statgrab_mem");
    out.line(labelled_u64("mem.cache ", cache));
    out.line(labelled_u64("mem.free ", free));
    out.line(labelled_u64("mem.total ", total));
    out.line(labelled_u64("mem.used ", used));
    out.line("swap.free 0".to_string());
    out.line("swap.total 0".to_string());
    out.line("swap.used 0".to_string());
    assert(out@ =~= old(out)@ + mem_lines(pagesize@, stats@));
    true
}

fn labelled_u64(label: &str, n: u64) -> (r: String)
    ensures
        r@ == label@ + decimal(n as nat),
{
    let mut l = chars_of(label);
    append_chars(&mut l, decimal_u64(n).as_slice());
    string_of(l.as_slice())
}


// ---------------------------------------------------------------------------
// Kernel counters.

/// A counter's value: the last one `sysctl` gave for it, as a number.
pub open spec fn counter(es: Seq<(Seq<char>, Seq<char>)>, key: Seq<char>) -> nat {
    match crate::checks::opnsense::unbound::stat_lookup(es, key) {
        Some(v) => match parse_u64_spec(v) {
            Some(n) => n as nat,
            None => 0,
        },
        None => 0,
    }
}

/// The processes created since boot: forks, vforks, rforks and kernel
/// threads.
pub open spec fn processes_total(es: Seq<(Seq<char>, Seq<char>)>) -> nat {
    counter(es, "vm.stats.vm.v_forks"@) + counter(es, "vm.stats.vm.v_vforks"@) + counter(
        es,
        "vm.stats.vm.v_rforks"@,
    ) + counter(es, "vm.stats.vm.v_kthreads"@)
}

/// The `kernel` section at time `now`: CPU ticks (user, nice, system, idle,
/// interrupt order), context switches and processes created.
pub open spec fn kernel_lines(stats: Seq<char>, cp_time: Seq<char>, now: u64) -> Seq<Seq<char>> {
    let es = sysctl_entries(lines_seq(stats));
    let c = words_seq(cp_time);
    if blank(stats) || blank(cp_time) || c.len() < 5 {
        Seq::empty()
    } else {
        seq![
            section_line("kernel"@),
            decimal(now as nat),
            "cpu "@ + c[0] + " "@ + c[1] + " "@ + c[2] + " "@ + c[4] + " "@ + c[3],
            "ctxt "@ + match crate::checks::opnsense::unbound::stat_lookup(es, "vm.stats.sys.v_swtch"@) {
                Some(v) => v,
                None => Seq::empty(),
            },
            "processes "@ + decimal(processes_total(es)),
        ]
    }
}

fn lookup<'a>(es: &'a Vec<(String, String)>, key: &str) -> (r: Option<&'a str>)
    ensures
        match r {
            Some(v) => crate::checks::opnsense::unbound::stat_lookup(
                crate::checks::opnsense::unbound::entry_views(es@),
                key@,
            ) == Some(v@),
            None => crate::checks::opnsense::unbound::stat_lookup(
                crate::checks::opnsense::unbound::entry_views(es@),
                key@,
            ) is None,
        },
{
    let ghost ev = crate::checks::opnsense::unbound::entry_views(es@);
    let k = chars_of(key);
    let mut i: usize = es.len();
    assert(ev.take(i as int) =~= ev);
    while i > 0
        invariant
            i <= es.len(),
            ev == crate::checks::opnsense::unbound::entry_views(es@),
            k@ == key@,
            crate::checks::opnsense::unbound::stat_lookup(ev, key@)
                == crate::checks::opnsense::unbound::stat_lookup(ev.take(i as int), key@),
        decreases i,
    {
        assert(ev.take(i as int).drop_last() =~= ev.take(i - 1));
        assert(ev.take(i as int).last() == ev[i - 1]);
        if eq_str(k.as_slice(), es[i - 1].0.as_str()) {
            return Some(es[i - 1].1.as_str());
        }
        i = i - 1;
    }
    None
}

fn read_counter(es: &Vec<(String, String)>, key: &str) -> (r: u64)
    ensures
        r == counter(crate::checks::opnsense::unbound::entry_views(es@), key@),
{
    match lookup(es, key) {
        Some(v) => match parse_u64(chars_of(v).as_slice()) {
            Some(n) => n,
            None => 0,
        },
        None => 0,
    }
}

/// Writes the kernel section. When the process counters add up to more
/// than 64 bits hold, nothing is written and the result is false.
pub fn kernel(out: &mut AgentOutput, stats: &str, cp_time: &str, now: u64) -> (r: bool)
    ensures
        r == (kernel_lines(stats@, cp_time@, now).len() == 0 || processes_total(
            sysctl_entries(lines_seq(stats@)),
        ) <= u64::MAX),
        final(out)@ == if r {
            old(out)@ + kernel_lines(stats@, cp_time@, now)
        } else {
            old(out)@
        },
{
    let sc = chars_of(stats);
    let cc = chars_of(cp_time);
    if is_blank(sc.as_slice()) || is_blank(cc.as_slice()) {
        assert(old(out)@ + Seq::<Seq<char>>::empty() =~= old(out)@);
        return true;
    }
    let values = parse_sysctl_colon(stats);
    let cpus = words_of(cc.as_slice());
    if cpus.len() < 5 {
        assert(old(out)@ + Seq::<Seq<char>>::empty() =~= old(out)@);
        return true;
    }
    let a = read_counter(&values, "vm.stats.vm.v_forks") as u128;
    let b = read_counter(&values, "vm.stats.vm.v_vforks") as u128;
    let c = read_counter(&values, "vm.stats.vm.v_rforks") as u128;
    let d = read_counter(&values, "vm.stats.vm.v_kthreads") as u128;
    let total = a + b + c + d;
    if total > u64::MAX as u128 {
        return false;
    }
    out.section("kernel");
    out.line(string_of(decimal_u64(now).as_slice()));
    let mut l = chars_of("cpu ");
    append_chars(&mut l, cpus[0].as_slice());
    append_str(&mut l, " ");
    append_chars(&mut l, cpus[1].as_slice());
    append_str(&mut l, " ");
    append_chars(&mut l, cpus[2].as_slice());
    append_str(&mut l, " ");
    append_chars(&mut l, cpus[4].as_slice());
    append_str(&mut l, " ");
    append_chars(&mut l, cpus[3].as_slice());
    out.line(string_of(l.as_slice()));
    let swtch: &str = match lookup(&values, "vm.stats.sys.v_swtch") {
        Some(v) => v,
        None => "",
    };
    proof {
        reveal_strlit("");
        assert(("")@ =~= Seq::<char>::empty());
    }
    out.line(labelled("ctxt ", swtch));
    out.line(labelled_u64("processes ", total as u64));
    proof {
        let cv = views(cpus@);
        assert(cv[0] == cpus@[0]@);
        assert(cv[1] == cpus@[1]@);
        assert(cv[2] == cpus@[2]@);
        assert(cv[3] == cpus@[3]@);
        assert(cv[4] == cpus@[4]@);
    }
    assert(out@ =~= old(out)@ + kernel_lines(stats@, cp_time@, now));
    true
}

// ---------------------------------------------------------------------------
// S.M.A.R.T.

/// The device names that `smartctl` is asked about.
pub const SMART_DEVICE_PATTERN: &'static str = "^(sd[a-z]+|da[0-9]+|nvme[0-9]+|ada[0-9]+)$";

/// Whether `/dev/<name>` is a disk to ask `smartctl` about; none when the
/// pattern does not compile.
pub fn smart_device(name: &str) -> (r: Option<bool>)
    ensures
        r == regex_matches(SMART_DEVICE_PATTERN@, name@),
{
    is_match(SMART_DEVICE_PATTERN, name)
}

/// The value `line` gives for the attribute `needle`: after a colon when
/// the text before it is the name, or the last column of an attribute
/// table row (ten or more columns) that names it.
pub open spec fn smart_value_spec(line: Seq<char>, needle: Seq<char>) -> Option<Seq<char>> {
    let w = words_seq(line);
    match split_once_spec(line, seq![':']) {
        Some((k, v)) if trim_seq(k) == needle => Some(trim_seq(v)),
        _ => if w.len() >= 10 && w[1] == needle {
            Some(w.last())
        } else {
            None
        },
    }
}

pub fn smart_value(line: &str, needle: &str) -> (r: Option<String>)
    ensures
        crate::pattern::opt_view(r) == smart_value_spec(line@, needle@),
{
    let l = chars_of(line);
    proof {
        reveal_strlit(":");
        assert((":")@ =~= seq![':']);
    }
    match split_once_str(l.as_slice(), ":") {
        Some((k, v)) => {
            if eq_str(trim_chars(k.as_slice()).as_slice(), needle) {
                return Some(string_of(trim_chars(v.as_slice()).as_slice()));
            }
        },
        None => {},
    }
    let w = words_of(l.as_slice());
    if w.len() >= 10 && eq_str(w[1].as_slice(), needle) {
        assert(views(w@)[1] == w@[1]@);
        assert(views(w@).last() == w@[w.len() - 1]@);
        return Some(string_of(w[w.len() - 1].as_slice()));
    }
    assert(w.len() >= 10 ==> views(w@)[1] == w@[1]@);
    None
}

/// The attributes reported, and the names they are reported under.
pub open spec fn smart_keys() -> Seq<(Seq<char>, Seq<char>)> {
    seq![
        ("Device Model"@, "model_type"@),
        ("Model Number"@, "model_family"@),
        ("Model Family"@, "model_family"@),
        ("Serial Number"@, "serial_number"@),
        ("Firmware Version"@, "firmware_version"@),
        ("SMART overall-health self-assessment test result"@, "smart_status"@),
        ("SMART Health Status"@, "smart_status"@),
        ("Power_On_Hours"@, "poweronhours"@),
        ("Power On Hours"@, "poweronhours"@),
        ("Temperature_Celsius"@, "temperature"@),
        ("Temperature"@, "temperature"@),
        ("Reallocated_Sector_Ct"@, "reallocate"@),
        ("Current_Pending_Sector"@, "pendingsector"@),
        ("Offline_Uncorrectable"@, "uncorrectable"@),
        ("UDMA_CRC_Error_Count"@, "udma_error"@),
    ]
}

/// The rows a line gives, one per attribute it has a value for.
pub open spec fn line_rows(device: Seq<char>, line: Seq<char>, keys: Seq<(Seq<char>, Seq<char>)>) -> Seq<Seq<char>>
    decreases keys.len(),
{
    if keys.len() == 0 {
        Seq::empty()
    } else {
        let prev = line_rows(device, line, keys.drop_last());
        match smart_value_spec(line, keys.last().0) {
            Some(v) => prev.push(device + "|"@ + keys.last().1 + "|"@ + v),
            None => prev,
        }
    }
}

pub open spec fn smart_rows(device: Seq<char>, ls: Seq<Seq<char>>) -> Seq<Seq<char>>
    decreases ls.len(),
{
    if ls.len() == 0 {
        Seq::empty()
    } else {
        smart_rows(device, ls.drop_last()) + line_rows(device, ls.last(), smart_keys())
    }
}

/// The `device|name|value` rows of what `smartctl -a` printed; none when
/// it printed nothing.
pub open spec fn smart_summary(device: Seq<char>, smart: Seq<char>) -> Seq<Seq<char>> {
    if blank(smart) {
        Seq::empty()
    } else {
        smart_rows(device, lines_seq(smart))
    }
}

pub fn emit_smart_summary(out: &mut AgentOutput, device: &str, smart: &str)
    ensures
        final(out)@ == old(out)@ + smart_summary(device@, smart@),
{
    let sc = chars_of(smart);
    if is_blank(sc.as_slice()) {
        assert(old(out)@ + Seq::<Seq<char>>::empty() =~= old(out)@);
        return;
    }
    let keys = vec![
        ("Device Model", "model_type"),
        ("Model Number", "model_family"),
        ("Model Family", "model_family"),
        ("Serial Number", "serial_number"),
        ("Firmware Version", "firmware_version"),
        ("SMART overall-health self-assessment test result", "smart_status"),
        ("SMART Health Status", "smart_status"),
        ("Power_On_Hours", "poweronhours"),
        ("Power On Hours", "poweronhours"),
        ("Temperature_Celsius", "temperature"),
        ("Temperature", "temperature"),
        ("Reallocated_Sector_Ct", "reallocate"),
        ("Current_Pending_Sector", "pendingsector"),
        ("Offline_Uncorrectable", "uncorrectable"),
        ("UDMA_CRC_Error_Count", "udma_error"),
    ];
    let ghost kv = keys@.map_values(|p: (&str, &str)| (p.0@, p.1@));
    assert(kv =~= smart_keys());
    let lines = lines_of(sc.as_slice());
    let ghost lv = views(lines@);
    let ghost head = out@;
    let mut i: usize = 0;
    while i < lines.len()
        invariant
            i <= lines.len(),
            lv == views(lines@),
            kv == keys@.map_values(|p: (&str, &str)| (p.0@, p.1@)),
            kv == smart_keys(),
            out@ == head + smart_rows(device@, lv.take(i as int)),
        decreases lines.len() - i,
    {
        assert(lv.take(i + 1).drop_last() =~= lv.take(i as int));
        assert(lv.take(i + 1).last() == lines@[i as int]@);
        let line = string_of(lines[i].as_slice());
        let ghost before = out@;
        let mut j: usize = 0;
        while j < keys.len()
            invariant
                j <= keys.len(),
                kv == keys@.map_values(|p: (&str, &str)| (p.0@, p.1@)),
                line@ == lv[i as int],
                out@ == before + line_rows(device@, line@, kv.take(j as int)),
            decreases keys.len() - j,
        {
            assert(kv.take(j + 1).drop_last() =~= kv.take(j as int));
            assert(kv.take(j + 1).last() == (keys@[j as int].0@, keys@[j as int].1@));
            let (needle, key) = keys[j];
            match smart_value(line.as_str(), needle) {
                Some(v) => {
                    let mut l = chars_of(device);
                    append_str(&mut l, "|");
                    append_str(&mut l, key);
                    append_str(&mut l, "|");
                    append_str(&mut l, v.as_str());
                    out.line(string_of(l.as_slice()));
                },
                None => {},
            }
            j = j + 1;
        }
        assert(kv.take(keys.len() as int) =~= kv);
        i = i + 1;
    }
    assert(lv.take(lines.len() as int) =~= lv);
}

} // verus!
