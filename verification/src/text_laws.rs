//! What numbers, times and lines of the log look like in writing.

use vstd::prelude::*;

use crate::layout::Layout;
use crate::logger::{self, Elapsed, LocalTime, LogLevel, LogMessage};
use crate::rule_laws::of_layout;
use crate::text;
use crate::unicode;

verus! {

// -- Numbers -----------------------------------------------------------------------------

/// The number that some digits stand for; spaces count for nothing.
pub open spec fn value_of(s: Seq<char>) -> int
    decreases s.len(),
{
    if s.len() == 0 {
        0
    } else if s.last() == ' ' {
        value_of(s.drop_last())
    } else {
        value_of(s.drop_last()) * 10 + (s.last() as int - 0x30)
    }
}

/// A number is read back from its digits, which are digits all; the first one is
/// no zero, unless it is the only one.
pub proof fn law_numbers_are_read_back(n: nat)
    ensures
        ({
            let s = text::decimal(n);
            &&& value_of(s) == n
            &&& s.len() >= 1
            &&& forall|i: int| 0 <= i < s.len() ==> '0' <= #[trigger] s[i] <= '9'
            &&& s.len() > 1 ==> s[0] != '0'
            &&& n > 0 ==> s[0] != '0'
        }),
    decreases n,
{
    let s = text::decimal(n);
    if n < 10 {
        reveal_with_fuel(value_of, 2);
        assert(s.drop_last().len() == 0);
    } else {
        law_numbers_are_read_back(n / 10);
        let rest = text::decimal(n / 10);
        assert(s.drop_last() =~= rest);
        assert(s[0] == rest[0]);
        assert forall|i: int| 0 <= i < s.len() implies '0' <= #[trigger] s[i] <= '9' by {
            if i < rest.len() {
                assert(s[i] == rest[i]);
            }
        }
    }
}

/// A text that is filled up has the width, or is longer and stays as it is; what
/// is put before it is nothing but the filling.
pub proof fn law_texts_are_filled_up(s: Seq<char>, width: nat, fill: char)
    ensures
        ({
            let p = text::padded(s, width, fill);
            &&& s.len() <= width ==> p.len() == width
            &&& s.len() >= width ==> p == s
            &&& p.skip(p.len() - s.len()) == s
            &&& forall|i: int| 0 <= i < p.len() - s.len() ==> #[trigger] p[i] == fill
        }),
{
    let p = text::padded(s, width, fill);
    assert(p.skip(p.len() - s.len()) =~= s);
}

/// Spaces and zeros before a number do not change it.
proof fn lemma_filled_value(s: Seq<char>, k: nat, fill: char)
    requires
        fill == ' ' || fill == '0',
    ensures
        value_of(Seq::new(k, |i: int| fill) + s) == value_of(s),
    decreases s.len() + k,
{
    let front = Seq::new(k, |i: int| fill);
    let whole = front + s;
    if s.len() > 0 {
        lemma_filled_value(s.drop_last(), k, fill);
        assert(whole.drop_last() =~= front + s.drop_last());
        assert(whole.last() == s.last());
    } else if k > 0 {
        let fewer = Seq::new((k - 1) as nat, |i: int| fill);
        lemma_filled_value(s, (k - 1) as nat, fill);
        assert(whole.drop_last() =~= fewer + s);
        assert(whole.last() == fill);
    } else {
        assert(whole =~= s);
    }
}

/// A number that was filled up with spaces or zeros is read back.
pub proof fn law_filled_numbers_are_read_back(n: nat, width: nat, fill: char)
    requires
        fill == ' ' || fill == '0',
    ensures
        value_of(text::padded(text::decimal(n), width, fill)) == n,
        text::padded(text::decimal(n), width, fill).len() >= width,
{
    let s = text::decimal(n);
    law_numbers_are_read_back(n);
    if s.len() < width {
        lemma_filled_value(s, (width - s.len()) as nat, fill);
    }
}

/// What a hexadecimal digit stands for.
pub open spec fn hex_value(c: char) -> int {
    if c <= '9' {
        c as int - 0x30
    } else {
        c as int - 0x57
    }
}

/// A hexadecimal digit, in lower case.
pub open spec fn is_hex_digit(c: char) -> bool {
    '0' <= c <= '9' || 'a' <= c <= 'f'
}

proof fn lemma_hex_digit(d: int)
    requires
        0 <= d < 16,
    ensures
        hex_value(text::hex_digit(d)) == d,
        is_hex_digit(text::hex_digit(d)),
{
}

proof fn lemma_hex_places(n: u16)
    ensures
        0 <= n / 0x1000 < 16,
        0 <= n / 0x100 % 0x10 < 16,
        0 <= n / 0x10 % 0x10 < 16,
        0 <= n % 0x10 < 16,
        n / 0x1000 * 0x1000 + n / 0x100 % 0x10 * 0x100 + n / 0x10 % 0x10 * 0x10 + n % 0x10 == n,
{
    assert(n / 0x1000 < 16 && n / 0x1000 * 0x1000 + n / 0x100 % 0x10 * 0x100 + n / 0x10 % 0x10 * 0x10
        + n % 0x10 == n) by (bit_vector);
}

/// A hexadecimal number has a prefix and four digits, from which it is read back.
pub proof fn law_hex_numbers_are_read_back(n: u16)
    ensures
        ({
            let s = text::hex(n);
            &&& s.len() == 6
            &&& s[0] == '0' && s[1] == 'x'
            &&& is_hex_digit(s[2]) && is_hex_digit(s[3]) && is_hex_digit(s[4]) && is_hex_digit(s[5])
            &&& hex_value(s[2]) * 0x1000 + hex_value(s[3]) * 0x100 + hex_value(s[4]) * 0x10
                + hex_value(s[5]) == n
        }),
{
    let s = text::hex(n);
    lemma_hex_places(n);
    assert(hex_value(s[2]) == n / 0x1000 && is_hex_digit(s[2])) by {
        lemma_hex_digit((n / 0x1000) as int);
    }
    assert(hex_value(s[3]) == n / 0x100 % 0x10 && is_hex_digit(s[3])) by {
        lemma_hex_digit((n / 0x100 % 0x10) as int);
    }
    assert(hex_value(s[4]) == n / 0x10 % 0x10 && is_hex_digit(s[4])) by {
        lemma_hex_digit((n / 0x10 % 0x10) as int);
    }
    assert(hex_value(s[5]) == n % 0x10 && is_hex_digit(s[5])) by {
        lemma_hex_digit((n % 0x10) as int);
    }
}

// -- Trimming ------------------------------------------------------------------------------

/// Trimming takes white space away at both ends, all of it and nothing else.
pub proof fn law_texts_are_trimmed(s: Seq<char>)
    ensures
        ({
            let t = text::trimmed(s);
            &&& t.len() > 0 ==> !unicode::is_space(t[0]) && !unicode::is_space(t.last())
            &&& exists|from: int, to: int|
                {
                    &&& 0 <= from <= to <= s.len()
                    &&& t == #[trigger] s.subrange(from, to)
                    &&& forall|i: int| 0 <= i < from ==> unicode::is_space(#[trigger] s[i])
                    &&& forall|i: int| to <= i < s.len() ==> unicode::is_space(#[trigger] s[i])
                }
        }),
{
    let a = text::trimmed_start(s);
    let t = text::trimmed_end(a);
    lemma_start(s);
    lemma_end(a);
    let from = s.len() - a.len();
    let to = from + t.len();
    assert(t =~= s.subrange(from, to));
    assert forall|i: int| to <= i < s.len() implies unicode::is_space(
        #[trigger] s[i],
    ) by {
        assert(a[i - from] == s[i]);
    }
    if t.len() > 0 {
        assert(t[0] == a[0]);
    }
}

proof fn lemma_start(s: Seq<char>)
    ensures
        ({
            let a = text::trimmed_start(s);
            let from = s.len() - a.len();
            &&& 0 <= from
            &&& a == s.skip(from)
            &&& a.len() > 0 ==> !unicode::is_space(a[0])
            &&& forall|i: int| 0 <= i < from ==> unicode::is_space(#[trigger] s[i])
        }),
    decreases s.len(),
{
    let a = text::trimmed_start(s);
    if s.len() > 0 && unicode::is_space(s[0]) {
        let rest = s.drop_first();
        lemma_start(rest);
        let from = s.len() - a.len();
        assert(a =~= s.skip(from));
        assert forall|i: int| 0 <= i < from implies unicode::is_space(#[trigger] s[i]) by {
            if i > 0 {
                assert(rest[i - 1] == s[i]);
            }
        }
    } else {
        assert(a =~= s.skip(0));
    }
}

proof fn lemma_end(s: Seq<char>)
    ensures
        ({
            let a = text::trimmed_end(s);
            &&& a.len() <= s.len()
            &&& a == s.take(a.len() as int)
            &&& a.len() > 0 ==> !unicode::is_space(a.last())
            &&& forall|i: int| a.len() <= i < s.len() ==> unicode::is_space(#[trigger] s[i])
        }),
    decreases s.len(),
{
    let a = text::trimmed_end(s);
    if s.len() > 0 && unicode::is_space(s.last()) {
        let rest = s.drop_last();
        lemma_end(rest);
        assert(a =~= s.take(a.len() as int));
        assert forall|i: int| a.len() <= i < s.len() implies unicode::is_space(#[trigger] s[i]) by {
            if i < rest.len() {
                assert(rest[i] == s[i]);
            }
        }
    } else {
        assert(a =~= s.take(s.len() as int));
    }
}

// -- The log ----------------------------------------------------------------------------------

/// The time since the start is read back from what stands in the log: minutes, a
/// colon, seconds below sixty, a point, and milliseconds.
pub proof fn law_stamps_are_read_back(d: Elapsed)
    ensures
        exists|minutes: Seq<char>, seconds: Seq<char>, millis: Seq<char>|
            #![trigger minutes + ":"@ + seconds + "."@ + millis]
            {
                &&& logger::stamp(d) == minutes + ":"@ + seconds + "."@ + millis
                &&& minutes.len() >= 3
                &&& seconds.len() >= 2
                &&& millis.len() >= 3
                &&& value_of(seconds) < 60
                &&& value_of(minutes) * 60 + value_of(seconds) == d.secs
                &&& value_of(millis) == d.millis
            },
{
    let minutes = text::padded(text::decimal((d.secs / 60) as nat), 3, ' ');
    let seconds = text::padded(text::decimal((d.secs % 60) as nat), 2, '0');
    let millis = text::padded(text::decimal(d.millis as nat), 3, '0');
    law_filled_numbers_are_read_back((d.secs / 60) as nat, 3, ' ');
    law_filled_numbers_are_read_back((d.secs % 60) as nat, 2, '0');
    law_filled_numbers_are_read_back(d.millis as nat, 3, '0');
    assert(logger::stamp(d) == minutes + ":"@ + seconds + "."@ + millis);
}

/// A date and a time of day are read back from what stands in the log.
pub proof fn law_times_are_read_back(t: LocalTime)
    ensures
        exists|parts: Seq<Seq<char>>|
            {
                &&& #[trigger] parts.len() == 7
                &&& logger::written_time(t) == parts[0] + "-"@ + parts[1] + "-"@ + parts[2] + " "@
                    + parts[3] + ":"@ + parts[4] + ":"@ + parts[5] + "."@ + parts[6]
                &&& value_of(parts[0]) == t.year && parts[0].len() >= 4
                &&& value_of(parts[1]) == t.month && parts[1].len() >= 2
                &&& value_of(parts[2]) == t.day && parts[2].len() >= 2
                &&& value_of(parts[3]) == t.hour && parts[3].len() >= 2
                &&& value_of(parts[4]) == t.minute && parts[4].len() >= 2
                &&& value_of(parts[5]) == t.second && parts[5].len() >= 2
                &&& value_of(parts[6]) == t.millis && parts[6].len() >= 3
            },
{
    let parts = seq![
        text::padded(text::decimal(t.year as nat), 4, '0'),
        text::padded(text::decimal(t.month as nat), 2, '0'),
        text::padded(text::decimal(t.day as nat), 2, '0'),
        text::padded(text::decimal(t.hour as nat), 2, '0'),
        text::padded(text::decimal(t.minute as nat), 2, '0'),
        text::padded(text::decimal(t.second as nat), 2, '0'),
        text::padded(text::decimal(t.millis as nat), 3, '0'),
    ];
    law_filled_numbers_are_read_back(t.year as nat, 4, '0');
    law_filled_numbers_are_read_back(t.month as nat, 2, '0');
    law_filled_numbers_are_read_back(t.day as nat, 2, '0');
    law_filled_numbers_are_read_back(t.hour as nat, 2, '0');
    law_filled_numbers_are_read_back(t.minute as nat, 2, '0');
    law_filled_numbers_are_read_back(t.second as nat, 2, '0');
    law_filled_numbers_are_read_back(t.millis as nat, 3, '0');
    assert(parts.len() == 7);
}

/// A line of the log begins with the time of day and ends with the message; the
/// time since the start, the thread and the level stand between, in brackets and
/// in this order.
pub proof fn law_lines_hold_everything(m: LogMessage)
    ensures
        logger::line_of(m) == "["@ + m.local_time@ + ("] ["@ + logger::stamp(m.elapsed) + ("] ["@
            + m.thread@ + ("] ["@ + m.level.name() + ("] "@ + m.message@)))),
        logger::line_of(m).len() >= m.message@.len(),
        logger::line_of(m).skip(logger::line_of(m).len() - m.message@.len()) == m.message@,
{
    let line = logger::line_of(m);
    assert(line =~= "["@ + m.local_time@ + ("] ["@ + logger::stamp(m.elapsed) + ("] ["@ + m.thread@
        + ("] ["@ + m.level.name() + ("] "@ + m.message@)))));
    assert(line.skip(line.len() - m.message@.len()) =~= m.message@);
}

/// The name of a layout begins with its number and tells one of the three
/// languages, where it is one of them.
pub proof fn law_layouts_are_named(lang: u16)
    ensures
        ({
            let name = logger::layout_name(lang);
            &&& name.take(6) == text::hex(lang)
            &&& of_layout(lang, Layout::English) ==> name.skip(6) == " (English)"@
            &&& of_layout(lang, Layout::Russian) ==> name.skip(6) == " (Russian)"@
            &&& of_layout(lang, Layout::Ukrainian) ==> name.skip(6) == " (Ukrainian)"@
            &&& !of_layout(lang, Layout::English) && !of_layout(lang, Layout::Russian)
                && !of_layout(lang, Layout::Ukrainian) ==> name == text::hex(lang)
        }),
{
    let name = logger::layout_name(lang);
    crate::layout::law_one_language(lang);
    assert(name.take(6) =~= text::hex(lang));
    if of_layout(lang, Layout::English) {
        assert(name.skip(6) =~= " (English)"@);
    } else if of_layout(lang, Layout::Russian) {
        assert(name.skip(6) =~= " (Russian)"@);
    } else if of_layout(lang, Layout::Ukrainian) {
        assert(name.skip(6) =~= " (Ukrainian)"@);
    } else {
        assert(name =~= text::hex(lang));
    }
}

/// The names of layouts stand one after the other, with a comma and a space
/// between any two.
pub proof fn law_layouts_are_listed(a: Seq<u16>, b: Seq<u16>)
    requires
        a.len() > 0,
        b.len() > 0,
    ensures
        logger::layout_names(a + b) == logger::layout_names(a) + ", "@ + logger::layout_names(b),
        a.len() == 1 ==> logger::layout_names(a) == logger::layout_name(a[0]),
        logger::layout_names(Seq::empty()).len() == 0,
    decreases b.len(),
{
    let rest = b.drop_last();
    assert((a + b).drop_last() =~= a + rest);
    if b.len() == 1 {
        assert(a + rest =~= a);
    } else {
        law_layouts_are_listed(a, rest);
        assert(logger::layout_names(a + b) =~= logger::layout_names(a) + ", "@
            + logger::layout_names(b));
    }
}

/// The levels of the log are named as they are known.
pub proof fn law_levels_are_named(level: LogLevel)
    ensures
        level == LogLevel::Debug ==> level.name() == "DEBUG"@,
        level == LogLevel::Info ==> level.name() == "INFO"@,
        level == LogLevel::Error ==> level.name() == "ERROR"@,
{
}

/// A text that neither begins nor ends with white space is trimmed already.
pub proof fn law_trimmed_texts_stay(s: Seq<char>)
    requires
        s.len() > 0 ==> !unicode::is_space(s[0]) && !unicode::is_space(s.last()),
    ensures
        text::trimmed(s) == s,
{
}

/// The name of the system is its product name, or Windows, and its build in brackets,
/// each without white space around it; where nothing is known of it, that is said.
pub proof fn law_systems_are_named(
    known: bool,
    product: Option<Seq<char>>,
    build: Option<Seq<char>>,
)
    ensures
        ({
            let name = logger::system_name(known, product, build);
            let base = if product is Some {
                text::trimmed(product->0)
            } else {
                "Windows"@
            };
            &&& !known ==> name == "Windows (Unknown version)"@
            &&& known && base.len() > 0 && build is None ==> name == base
            &&& known && base.len() > 0 && build is Some ==> name == base + " (Build "@
                + text::trimmed(build->0) + ")"@
        }),
{
    lemma_fixed_parts();
    law_trimmed_texts_stay("Windows"@);
    let full = if product is Some {
        product->0
    } else {
        "Windows"@
    };
    if known && text::trimmed(full).len() > 0 {
        if build is Some {
            lemma_system_with_build(full, build->0);
        } else {
            lemma_system_without_build(full);
        }
    }
}

proof fn lemma_system_with_build(full: Seq<char>, build: Seq<char>)
    requires
        text::trimmed(full).len() > 0,
    ensures
        text::trimmed(text::trimmed(full) + " "@ + ("(Build "@ + text::trimmed(build) + ")"@))
            == text::trimmed(full) + " (Build "@ + text::trimmed(build) + ")"@,
{
    lemma_fixed_parts();
    lemma_ends(full);
    let base = text::trimmed(full);
    let inner = text::trimmed(build);
    lemma_with_build(base, inner, "(Build "@, ")"@);
    lemma_regroup(base, " "@, "(Build "@, inner, ")"@);
}

proof fn lemma_regroup(a: Seq<char>, b: Seq<char>, c: Seq<char>, d: Seq<char>, e: Seq<char>)
    ensures
        a + b + (c + d + e) == a + (b + c) + d + e,
{
    assert(a + b + (c + d + e) =~= a + (b + c) + d + e);
}

proof fn lemma_system_without_build(full: Seq<char>)
    requires
        text::trimmed(full).len() > 0,
    ensures
        text::trimmed(text::trimmed(full) + " "@ + Seq::<char>::empty()) == text::trimmed(full),
{
    lemma_fixed_parts();
    lemma_ends(full);
    lemma_without_build(text::trimmed(full));
}

/// What is left of a trimmed text neither begins nor ends with white space.
proof fn lemma_ends(s: Seq<char>)
    ensures
        text::trimmed(s).len() > 0 ==> !unicode::is_space(text::trimmed(s)[0])
            && !unicode::is_space(text::trimmed(s).last()),
{
    law_texts_are_trimmed(s);
}

/// The parts of the name that are always the same.
proof fn lemma_fixed_parts()
    ensures
        " "@ == seq![' '],
        ")"@ == seq![')'],
        " (Build "@ == " "@ + "(Build "@,
        "Windows"@.len() > 0,
        !unicode::is_space("Windows"@[0]),
        !unicode::is_space("Windows"@.last()),
{
    reveal_strlit("Windows");
    reveal_strlit(" ");
    reveal_strlit("(Build ");
    reveal_strlit(" (Build ");
    reveal_strlit(")");
    assert(" "@ =~= seq![' ']);
    assert(")"@ =~= seq![')']);
    assert(" (Build "@ =~= " "@ + "(Build "@);
}

/// A name that begins with a letter and ends with a bracket is trimmed already.
proof fn lemma_with_build(base: Seq<char>, build: Seq<char>, before: Seq<char>, after: Seq<char>)
    requires
        base.len() > 0,
        !unicode::is_space(base[0]),
        after == seq![')'],
    ensures
        text::trimmed(base + " "@ + (before + build + after)) == base + " "@ + (before + build
            + after),
{
    let whole = base + " "@ + (before + build + after);
    assert(whole[0] == base[0]);
    assert(whole.last() == ')');
    law_trimmed_texts_stay(whole);
}

/// The space after a name falls away.
proof fn lemma_without_build(base: Seq<char>)
    requires
        base.len() > 0,
        !unicode::is_space(base[0]),
        !unicode::is_space(base.last()),
        " "@ == seq![' '],
    ensures
        text::trimmed(base + " "@ + Seq::<char>::empty()) == base,
{
    let whole = base + " "@ + Seq::<char>::empty();
    assert(whole[0] == base[0]);
    assert(text::trimmed_start(whole) == whole);
    assert(whole.last() == ' ');
    assert(whole.drop_last() =~= base);
    assert(text::trimmed_end(base) == base);
    assert(text::trimmed_end(whole) == text::trimmed_end(base));
}

} // verus!
