//! What the lists of sockets and processes say.
use crate::cli::commands::{asked_limit, field_pair, typed, wait_limit};
use crate::cli::texts::{last_of, tail_of};
use crate::daemon::places::{files_of, meant_cwd, placed};
use crate::daemon::sockets::{
    colon_parts, hex_addr, hex_digit, hexadecimal, ipv6_text, link_inode, listen_line, local_port,
    longest_zeros, no_leading, no_trailing, owned_pids, pids_in, port_floor, socket_line,
    word_bytes, zeros_from,
};
use crate::laws::commands::last_place_is;
use crate::text::chars::{
    begins, char_position, char_position_from_is, char_position_from_is_first, joined,
    last_char_position, words,
};
use crate::text::lines::line_list;
use crate::text::numbers::{decimal, number};
use crate::text::utf8::byte_len;
use vstd::prelude::*;

verus! {

/// The address of a socket is a number whose lowest byte comes first, and its port stands behind a
/// colon; both are in hexadecimal.
pub proof fn addresses_are_read_from_the_lowest_byte(
    addr: Seq<char>,
    port: Seq<char>,
    a: int,
    b: int,
    c: int,
    d: int,
    p: int,
)
    requires
        forall|i: int| 0 <= i < addr.len() ==> #[trigger] addr[i] != ':',
        byte_len(addr) == 8,
        0 <= a < 256,
        0 <= b < 256,
        0 <= c < 256,
        0 <= d < 256,
        number(addr, 16, 0xffff_ffff) == Some(a + 256 * b + 65536 * c + 16777216 * d),
        number(port, 16, 65535) == Some(p),
    ensures
        hex_addr(addr + ":"@ + port, false) == Some(
            (
                decimal(a as nat) + "."@ + decimal(b as nat) + "."@ + decimal(c as nat) + "."@
                    + decimal(d as nat),
                p,
            ),
        ),
        hex_addr(addr, false) is None,
        hex_addr(addr, true) is None,
{
    reveal_strlit(":");
    let field = addr + ":"@ + port;
    let n = addr.len() as int;
    assert forall|i: int| 0 <= i < n implies field[i] != ':' by {
        assert(field[i] == addr[i]);
    }
    assert(field[n] == ':');
    char_position_from_is(field, ':', 0, n);
    assert(field.take(n) =~= addr);
    assert(field.skip(n + 1) =~= port);
    let ip = a + 256 * b + 65536 * c + 16777216 * d;
    bytes_of_a_word(a, b, c, d);
    assert(word_bytes(ip) =~= seq![a, b, c, d]);
    no_colon(addr);
}

proof fn no_colon(addr: Seq<char>)
    requires
        forall|i: int| 0 <= i < addr.len() ==> #[trigger] addr[i] != ':',
    ensures
        char_position(addr, ':') is None,
{
    char_position_from_is_first(addr, ':', 0);
    if char_position(addr, ':') is Some {
        assert(addr[char_position(addr, ':')->0] == ':');
    }
}

proof fn bytes_of_a_word(a: int, b: int, c: int, d: int)
    requires
        0 <= a < 256,
        0 <= b < 256,
        0 <= c < 256,
        0 <= d < 256,
    ensures
        ({
            let ip = a + 256 * b + 65536 * c + 16777216 * d;
            &&& ip % 256 == a
            &&& (ip / 256) % 256 == b
            &&& (ip / 65536) % 256 == c
            &&& (ip / 16777216) % 256 == d
        }),
{
    let ip = a + 256 * b + 65536 * c + 16777216 * d;
    assert(ip == a + 256 * (b + 256 * c + 65536 * d));
    assert(ip / 256 == b + 256 * c + 65536 * d);
    assert(ip == (a + 256 * b) + 65536 * (c + 256 * d));
    assert(ip / 65536 == c + 256 * d);
    assert(ip / 16777216 == d);
}

/// A line of the list is a socket's where its state is that of a listening one; its address is the
/// second word and its inode the tenth.
pub proof fn listening_lines_count(line: Seq<char>, v6: bool)
    ensures
        words(line).len() < 10 ==> socket_line(line, v6) is None,
        words(line).len() >= 10 && words(line)[3] != "0A"@ ==> socket_line(line, v6) is None,
        words(line).len() >= 10 && words(line)[3] == "0A"@ && hex_addr(words(line)[1], v6) is Some
            && number(words(line)[9], 10, u64::MAX as int) is Some ==> {
            let (host, port) = hex_addr(words(line)[1], v6)->0;
            &&& socket_line(line, v6) is Some
            &&& socket_line(line, v6)->0.host == host
            &&& socket_line(line, v6)->0.port == port
            &&& Some(socket_line(line, v6)->0.inode) == number(
                words(line)[9],
                10,
                u64::MAX as int,
            )
        },
{
}

/// A local address is a host and, behind the last colon, a port; the brackets around a host do not
/// count.
pub proof fn local_addresses_are_cut_at_the_last_colon(host: Seq<char>, port: Seq<char>, p: int)
    requires
        forall|i: int| 0 <= i < port.len() ==> #[trigger] port[i] != ':',
        number(port, 10, 65535) == Some(p),
        host.len() > 0,
        host[0] != '[' && host[0] != ']',
        host.last() != ']' && host.last() != '[',
    ensures
        local_port(host + ":"@ + port) == Some((host, p)),
        local_port("["@ + host + "]"@ + ":"@ + port) == Some((host, p)),
{
    reveal_strlit(":");
    reveal_strlit("[");
    reveal_strlit("]");
    let plain = host + ":"@ + port;
    cut_last_colon(host, port);
    let bracketed = "["@ + host + "]"@;
    cut_last_colon(bracketed, port);
    assert("["@ + host + "]"@ + ":"@ + port =~= bracketed + ":"@ + port);
    assert(no_leading(host, '[') == host);
    assert(no_trailing(host, ']') == host);
    assert(bracketed[0] == '[');
    let inner = host + "]"@;
    assert(bracketed.drop_first() =~= inner);
    assert(inner[0] == host[0]);
    assert(no_leading(inner, '[') == inner);
    assert(no_leading(bracketed, '[') == inner);
    assert(inner.last() == ']');
    assert(inner.drop_last() =~= host);
    assert(no_trailing(inner, ']') == host);
}

proof fn cut_last_colon(host: Seq<char>, port: Seq<char>)
    requires
        forall|i: int| 0 <= i < port.len() ==> #[trigger] port[i] != ':',
    ensures
        last_char_position(host + ":"@ + port, ':') == Some(host.len() as int),
        (host + ":"@ + port).take(host.len() as int) == host,
        (host + ":"@ + port).skip(host.len() as int + 1) == port,
{
    reveal_strlit(":");
    let s = host + ":"@ + port;
    let n = host.len() as int;
    assert(s[n] == ':');
    assert forall|i: int| n < i < s.len() implies #[trigger] s[i] != ':' by {
        assert(s[i] == port[i - n - 1]);
    }
    last_place_is(s, ':', s.len() as int, n);
    assert(s.take(n) =~= host);
    assert(s.skip(n + 1) =~= port);
}

/// The first port that the system hands out is the first number of its range, and 32768 where no
/// range can be read.
pub proof fn ranges_begin_at_the_floor(text: Seq<char>, n: int)
    ensures
        port_floor(None) == 32768,
        words(text).len() == 0 ==> port_floor(Some(text)) == 32768,
        words(text).len() > 0 && number(words(text)[0], 10, 65535) == Some(n) ==> port_floor(
            Some(text),
        ) == n,
        words(text).len() > 0 && number(words(text)[0], 10, 65535) is None ==> port_floor(Some(text))
            == 32768,
{
}

/// The link of a socket holds its inode between brackets.
pub proof fn links_hold_inodes(digits: Seq<char>, n: int)
    requires
        number(digits, 10, u64::MAX as int) == Some(n),
    ensures
        link_inode("socket:["@ + digits + "]"@) == Some(n),
        link_inode("pipe:["@ + digits + "]"@) is None,
{
    reveal_strlit("socket:[");
    reveal_strlit("pipe:[");
    reveal_strlit("]");
    let link = "socket:["@ + digits + "]"@;
    let rest = digits + "]"@;
    assert(link.subrange(0, 8) =~= "socket:["@);
    assert(link.skip(8) =~= rest);
    let m = digits.len() as int;
    assert(rest.subrange(m, m + 1) =~= "]"@);
    assert(rest.take(m) =~= digits);
    let pipe = "pipe:["@ + digits + "]"@;
    assert(pipe[0] == 'p');
    if begins(pipe, "socket:["@) {
        assert(pipe.subrange(0, 8)[0] == pipe[0]);
    }
}

/// The processes that count are those that are owned, in their order.
pub proof fn owned_processes_count(pids: Seq<int>, owned: Set<u32>)
    ensures
        owned_pids(pids, owned) == pids.filter(|p: int| owned.contains(p as u32)),
    decreases pids.len(),
{
    reveal(Seq::filter);
    if pids.len() > 0 {
        owned_processes_count(pids.drop_last(), owned);
    }
}

/// A line of the lister is a port's where one of its processes is owned; the address is its fourth
/// word.
pub proof fn listed_ports_are_owned(line: Seq<char>, owned: Set<u32>)
    ensures
        words(line).len() < 4 ==> listen_line(line, owned) is None,
        listen_line(line, owned) matches Some(l) ==> l.pids.len() > 0 && words(line).len() >= 4
            && local_port(words(line)[3]) == Some((l.host, l.port)),
        listen_line(line, owned) matches Some(l) ==> (forall|i: int|
            0 <= i < l.pids.len() ==> owned.contains((#[trigger] l.pids[i]) as u32)),
{
    owned_processes_count(pids_in(line), owned);
    let all = pids_in(line);
    only_owned(all, owned);
}

proof fn only_owned(pids: Seq<int>, owned: Set<u32>)
    ensures
        forall|i: int|
            0 <= i < owned_pids(pids, owned).len() ==> owned.contains(
                (#[trigger] owned_pids(pids, owned)[i]) as u32,
            ),
    decreases pids.len(),
{
    if pids.len() > 0 {
        only_owned(pids.drop_last(), owned);
        let before = owned_pids(pids.drop_last(), owned);
        let after = owned_pids(pids, owned);
        assert forall|i: int| 0 <= i < after.len() implies owned.contains(
            (#[trigger] after[i]) as u32,
        ) by {
            if i < before.len() {
                assert(after[i] == before[i]);
            }
        }
    }
}

/// Digits of hexadecimal numbers.
pub proof fn hexadecimal_digits(n: int)
    requires
        0 <= n < 16,
    ensures
        n < 10 ==> hex_digit(n) as int == '0' as int + n,
        n >= 10 ==> hex_digit(n) as int == 'a' as int + n - 10,
        hexadecimal(n as nat) == seq![hex_digit(n)],
{
}

/// An IPv6 address of noughts alone is two colons, and one without two noughts side by side is
/// written out.
pub proof fn long_addresses_are_shortened(segs: Seq<int>)
    requires
        segs.len() == 8,
    ensures
        (forall|i: int| 0 <= i < 8 ==> #[trigger] segs[i] == 0) ==> ipv6_text(segs) == "::"@,
        (forall|i: int| 0 <= i < 8 ==> #[trigger] segs[i] != 0) ==> ipv6_text(segs)
            == colon_parts(segs),
{
    if forall|i: int| 0 <= i < 8 ==> #[trigger] segs[i] == 0 {
        all_noughts(segs, 0);
        longest_is_first(segs, 8);
        assert(segs.take(0) =~= Seq::empty());
        assert(segs.skip(8) =~= Seq::empty());
        assert(colon_parts(Seq::empty()) =~= Seq::empty());
        assert(Seq::<char>::empty() + "::"@ + Seq::<char>::empty() =~= "::"@);
    }
    if forall|i: int| 0 <= i < 8 ==> #[trigger] segs[i] != 0 {
        let start = longest_zeros(segs, 8);
        within(segs, 8);
        assert(segs[start] != 0);
    }
}

proof fn within(segs: Seq<int>, n: int)
    requires
        1 <= n <= segs.len(),
    ensures
        0 <= longest_zeros(segs, n) < n,
    decreases n,
{
    if n > 1 {
        within(segs, n - 1);
    }
}

proof fn all_noughts(segs: Seq<int>, i: int)
    requires
        0 <= i <= segs.len(),
        forall|k: int| 0 <= k < segs.len() ==> #[trigger] segs[k] == 0,
    ensures
        zeros_from(segs, i) == segs.len() - i,
    decreases segs.len() - i,
{
    if i < segs.len() {
        all_noughts(segs, i + 1);
    }
}

proof fn longest_is_first(segs: Seq<int>, n: int)
    requires
        1 <= n <= segs.len(),
        forall|k: int| 0 <= k < segs.len() ==> #[trigger] segs[k] == 0,
    ensures
        longest_zeros(segs, n) == 0,
    decreases n,
{
    if n > 1 {
        longest_is_first(segs, n - 1);
        all_noughts(segs, n - 1);
        all_noughts(segs, 0);
    }
}

/// A path from the root is read as it is, and any other below the directory, with one slash
/// between them.
pub proof fn paths_are_read_in_directories(dir: Seq<char>, path: Seq<char>)
    requires
        dir.len() > 0,
        dir.last() != '/',
        path.len() > 0,
    ensures
        path[0] == '/' ==> placed(dir, path) == path,
        path[0] != '/' ==> placed(dir, path) == dir + "/"@ + path,
        path[0] != '/' ==> placed(dir + "/"@, path) == dir + "/"@ + path,
        path[0] == '/' ==> meant_cwd(Some(path), dir) == path,
        dir[0] == '/' ==> meant_cwd(None, dir) == dir,
        files_of(dir) == seq![dir + "/"@ + "vmux.json"@, dir + "/"@ + ".vmux.json"@],
{
    reveal_strlit("/");
    reveal_strlit("vmux.json");
    reveal_strlit(".vmux.json");
    assert("/"@ =~= seq!['/']);
    slash_leads(path);
    slash_leads(dir);
    slash_leads("vmux.json"@);
    slash_leads(".vmux.json"@);
    assert((dir + "/"@).last() == '/');
    assert(files_of(dir) =~= seq![dir + "/"@ + "vmux.json"@, dir + "/"@ + ".vmux.json"@]);
}

proof fn slash_leads(path: Seq<char>)
    requires
        path.len() > 0,
    ensures
        begins(path, "/"@) <==> path[0] == '/',
{
    reveal_strlit("/");
    assert("/"@ =~= seq!['/']);
    assert(path.subrange(0, 1) =~= seq![path[0]]);
    if begins(path, "/"@) {
        assert(path.subrange(0, 1)[0] == '/');
    }
}

/// What is typed are the words with spaces between, and a return behind them where it is asked for.
pub proof fn typed_words(a: Seq<char>, b: Seq<char>)
    ensures
        typed(seq![a, b], false) == a + " "@ + b,
        typed(seq![a, b], true) == (a + " "@ + b).push('\r'),
        typed(seq![a], false) == a,
{
    let two = seq![a, b];
    let one = two.drop_last();
    assert(one =~= seq![a]);
    assert(two.last() == b);
    assert(one.last() == a);
    assert(joined(one, " "@) =~= a) by {
        assert(one.drop_last() =~= Seq::empty());
    }
    assert(joined(two, " "@) =~= a + " "@ + b);
}

/// A wait takes five minutes where nothing is said, for ever for zero, and else its seconds; the
/// usual limit of bytes is not asked for.
pub proof fn waits_and_limits(secs: u64, limit: usize)
    ensures
        wait_limit(None) == Some(300_000u64),
        wait_limit(Some(0)) is None,
        0 < secs && secs * 1000 <= u64::MAX ==> wait_limit(Some(secs)) == Some((secs * 1000) as u64),
        secs * 1000 > u64::MAX ==> wait_limit(Some(secs)) == Some(u64::MAX),
        limit == 16_000 ==> asked_limit(limit) is None,
        limit != 16_000 ==> asked_limit(limit) == Some(limit),
{
}

/// A field is a name before its first equals sign and a value behind it.
pub proof fn fields_are_names_and_values(name: Seq<char>, value: Seq<char>)
    requires
        forall|i: int| 0 <= i < name.len() ==> #[trigger] name[i] != '=',
    ensures
        field_pair(name + "="@ + value) == Some((name, value)),
        field_pair(name) is None,
{
    reveal_strlit("=");
    let field = name + "="@ + value;
    let n = name.len() as int;
    assert forall|i: int| 0 <= i < n implies field[i] != '=' by {
        assert(field[i] == name[i]);
    }
    assert(field[n] == '=');
    char_position_from_is(field, '=', 0, n);
    assert(field.take(n) =~= name);
    assert(field.skip(n + 1) =~= value);
    char_position_from_is_first(name, '=', 0);
    if char_position(name, '=') is Some {
        assert(name[char_position(name, '=')->0] == '=');
    }
}

/// The last lines of a log are the last of its lines, in their order, and end with a line feed where
/// the log does.
pub proof fn logs_end_with_their_last_lines(text: Seq<char>, n: int)
    requires
        n > 0,
    ensures
        tail_of(text, 0).len() == 0,
        line_list(text).len() <= n ==> last_of(line_list(text), n) == line_list(text),
        line_list(text).len() > n ==> last_of(line_list(text), n) == line_list(text).skip(
            line_list(text).len() - n,
        ),
        ({
            let lines = joined(last_of(line_list(text), n), "\n"@);
            &&& lines.len() > 0 && text.last() == '\n' ==> tail_of(text, n) == lines.push('\n')
            &&& lines.len() == 0 || text.last() != '\n' ==> tail_of(text, n) == lines
        }),
{
}

} // verus!
