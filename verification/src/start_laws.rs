//! What the program is set to by flags and variables, and how it starts, stated
//! of the functions that decide it.

use vstd::prelude::*;
use vstd::utf8::is_ascii_chars;

use crate::env::{env_is_true, env_u32, env_u64, number_setting, pairs_map, EnvVars};
use crate::health::{health_port, Health};
use crate::http::{init, HttpCfg};
use crate::kubeapi::{init_client, transport_retries, ClientSettings, Kind};
use crate::launch::{connected, next_start, start, Launch, Prepared, Stage, StartStep};
use crate::logger::{entry_views, Failure, Level, LogEntry};
use crate::number::{decimal, decimal_string, digit, parse_unsigned};
use crate::outside::json_reprinted;
use crate::request_laws::is_variable;
use crate::resource_laws::{one_piece, pieces_of_both};
use crate::resources::{watch_task, Ctx, NextRound, WErr};
use crate::startup::{
    chosen_namespace, decide_ignore, digits_of, first_sync, flags_of, is_settings, make_ctx, monitor, parse_flags,
    payload_from, read_features, read_settings, selected_kinds, target_views, targets_of,
    targets_of_kind, version_is_recent, watch_targets, Features, FirstSync, Settings, Version,
};
use crate::text::{ascii_lower, first_at, first_at_is_first, lowered, pieces, views};

verus! {

// ---------------------------------------------------------------------------
// Flags
// ---------------------------------------------------------------------------

/// What came of reading flags.
pub type Flags = Result<(Option<String>, Option<String>), Failure>;

/// Both came to the same.
pub open spec fn same_flags(a: Flags, b: Flags) -> bool {
    match (a, b) {
        (Ok((u, p)), Ok((v, q))) => {
            &&& u is Some == v is Some
            &&& u is Some ==> u->0@ == v->0@
            &&& p is Some == q is Some
            &&& p is Some ==> p->0@ == q->0@
        },
        (Err(f), Err(g)) => f.code == g.code,
        _ => false,
    }
}

proof fn cut_at_equals(flag: Seq<char>, value: Seq<char>)
    requires
        !flag.contains('='),
    ensures
        first_at(flag, '=') == flag.len(),
        flag.take(flag.len() as int) == flag,
        first_at(flag.push('=') + value, '=') == flag.len(),
        (flag.push('=') + value).take(flag.len() as int) == flag,
        (flag.push('=') + value).skip(flag.len() as int + 1) == value,
{
    let s = flag.push('=') + value;
    assert forall|i: int| 0 <= i < flag.len() implies flag[i] != '=' by {
        assert(flag.contains(flag[i]));
    }
    first_at_is_first(flag, '=', flag.len() as int);
    assert forall|i: int| 0 <= i < flag.len() implies s[i] != '=' by {
        assert(s[i] == flag[i]);
    }
    assert(s[flag.len() as int] == '=');
    first_at_is_first(s, '=', flag.len() as int);
    assert(flag.take(flag.len() as int) =~= flag);
    assert(s.take(flag.len() as int) =~= flag);
    assert(s.skip(flag.len() as int + 1) =~= value);
}

proof fn cut_is_inside(s: Seq<char>, c: char)
    requires
        s.contains(c),
    ensures
        0 <= first_at(s, c) < s.len(),
    decreases s.len(),
{
    let i = choose|i: int| 0 <= i < s.len() && s[i] == c;
    if s[0] != c {
        assert(s.skip(1)[i - 1] == c);
        cut_is_inside(s.skip(1), c);
    }
}

/// Every argument has its value after an equals sign.
pub open spec fn have_values(args: Seq<String>) -> bool {
    forall|i: int| 0 <= i < args.len() ==> (#[trigger] args[i])@.contains('=')
}

proof fn flags_one_by_one(
    a: Seq<Seq<char>>,
    b: Seq<Seq<char>>,
    u: Option<Seq<char>>,
    p: Option<Seq<char>>,
)
    requires
        forall|i: int| 0 <= i < a.len() ==> (#[trigger] a[i]).contains('='),
    ensures
        flags_of(a + b, u, p) == (match flags_of(a, u, p) {
            Ok((v, q)) => flags_of(b, v, q),
            Err(e) => Err(e),
        }),
    decreases a.len(),
{
    if a.len() == 0 {
        assert(a + b =~= b);
    } else {
        let s = a[0];
        assert(s.contains('='));
        cut_is_inside(s, '=');
        assert((a + b)[0] == s);
        assert((a + b).skip(1) =~= a.skip(1) + b);
        let cut = first_at(s, '=');
        let flag = s.take(cut);
        let value = Some(s.skip(cut + 1));
        assert forall|i: int| 0 <= i < a.skip(1).len() implies (#[trigger] a.skip(1)[i]).contains('=') by {
            assert(a.skip(1)[i] == a[i + 1]);
        }
        if flag == "--req-username-file"@ {
            flags_one_by_one(a.skip(1), b, value, p);
        } else if flag == "--req-password-file"@ {
            flags_one_by_one(a.skip(1), b, u, value);
        }
    }
}

proof fn views_have_values(args: Seq<String>)
    requires
        have_values(args),
    ensures
        forall|i: int| 0 <= i < views(args).len() ==> (#[trigger] views(args)[i]).contains('='),
{
    assert forall|i: int| 0 <= i < views(args).len() implies (#[trigger] views(args)[i]).contains('=') by {
        assert(views(args)[i] == args[i]@);
        assert(args[i]@.contains('='));
    }
}

/// Without flags no file is named. Each flag sets its own file, so the last one
/// of its kind counts, and leaves the other; and a flag of another name is an
/// error, whatever comes before it.
pub proof fn each_flag_sets_its_file(
    before: Vec<String>,
    last: String,
    args: Vec<String>,
    flag: Seq<char>,
    value: Seq<char>,
    r0: Flags,
    r: Flags,
)
    requires
        have_values(before@),
        !flag.contains('='),
        last@ == flag.push('=') + value,
        args@ == before@.push(last),
        call_ensures(parse_flags, (&before,), r0),
        call_ensures(parse_flags, (&args,), r),
    ensures
        before@.len() == 0 ==> r0 is Ok && r0->Ok_0.0 is None && r0->Ok_0.1 is None,
        r0 is Err ==> r is Err,
        r is Err ==> r->Err_0.code == 2,
        r0 is Ok && flag == "--req-username-file"@ ==> {
            &&& r matches Ok((Some(u), p))
            &&& u@ == value
            &&& p is Some == r0->Ok_0.1 is Some
            &&& p is Some ==> p->0@ == r0->Ok_0.1->0@
        },
        r0 is Ok && flag == "--req-password-file"@ ==> {
            &&& r matches Ok((u, Some(p)))
            &&& p@ == value
            &&& u is Some == r0->Ok_0.0 is Some
            &&& u is Some ==> u->0@ == r0->Ok_0.0->0@
        },
        flag != "--req-username-file"@ && flag != "--req-password-file"@ ==> r is Err,
{
    reveal_strlit("--req-username-file");
    reveal_strlit("--req-password-file");
    reveal_with_fuel(flags_of, 3);
    let a = views(before@);
    let b = seq![last@];
    views_have_values(before@);
    assert(views(args@) =~= a + b);
    flags_one_by_one(a, b, None, None);
    cut_at_equals(flag, value);
    assert(b.skip(1) =~= Seq::empty());
    assert("--req-username-file"@[6] == 'u');
    assert("--req-password-file"@[6] == 'p');
}

/// A value may stand in an argument of its own as well as after an equals
/// sign.
pub proof fn values_may_stand_alone(
    before: Vec<String>,
    flag: String,
    value: String,
    both: String,
    apart: Vec<String>,
    inline: Vec<String>,
    after: Seq<String>,
    ra: Flags,
    ri: Flags,
)
    requires
        have_values(before@),
        !flag@.contains('='),
        both@ == flag@.push('=') + value@,
        apart@ == before@ + seq![flag, value] + after,
        inline@ == before@ + seq![both] + after,
        call_ensures(parse_flags, (&apart,), ra),
        call_ensures(parse_flags, (&inline,), ri),
    ensures
        same_flags(ra, ri),
{
    let a = views(before@);
    let b = seq![flag@, value@] + views(after);
    let c = seq![both@] + views(after);
    views_have_values(before@);
    assert(views(apart@) =~= a + b);
    assert(views(inline@) =~= a + c);
    flags_one_by_one(a, b, None, None);
    flags_one_by_one(a, c, None, None);
    cut_at_equals(flag@, value@);
    assert(b.skip(2) =~= views(after));
    assert(c.skip(1) =~= views(after));
    assert(b[0] == flag@ && b[1] == value@ && c[0] == both@);
}

// ---------------------------------------------------------------------------
// Switches and numbers
// ---------------------------------------------------------------------------

/// The text is the word "true", each letter in upper or lower case.
pub open spec fn says_true(v: Seq<char>) -> bool {
    &&& v.len() == 4
    &&& v[0] == 't' || v[0] == 'T'
    &&& v[1] == 'r' || v[1] == 'R'
    &&& v[2] == 'u' || v[2] == 'U'
    &&& v[3] == 'e' || v[3] == 'E'
}

proof fn lower_letter(c: char, upper: char, lower: char)
    requires
        'A' <= upper <= 'Z',
        lower as u32 == upper as u32 + 32,
    ensures
        ascii_lower(c) == lower <==> c == upper || c == lower,
{
}

proof fn lowered_true(v: Seq<char>)
    requires
        is_ascii_chars(v),
    ensures
        lowered(v) == "true"@ <==> says_true(v),
{
    reveal_strlit("true");
    let t = "true"@;
    assert(t.len() == 4 && t[0] == 't' && t[1] == 'r' && t[2] == 'u' && t[3] == 'e');
    if v.len() == 4 {
        lower_letter(v[0], 'T', 't');
        lower_letter(v[1], 'R', 'r');
        lower_letter(v[2], 'U', 'u');
        lower_letter(v[3], 'E', 'e');
        let l = lowered(v);
        assert(l[0] == ascii_lower(v[0]));
        assert(l[1] == ascii_lower(v[1]));
        assert(l[2] == ascii_lower(v[2]));
        assert(l[3] == ascii_lower(v[3]));
        if says_true(v) {
            assert(l =~= t);
        }
    } else {
        assert(lowered(v).len() == v.len());
    }
}

proof fn true_is_ascii(v: Seq<char>)
    requires
        says_true(v),
    ensures
        is_ascii_chars(v),
{
}

/// The switch is on exactly if the variable is set to "true" in upper or lower
/// case; of a text with other than ASCII characters nothing is said.
pub open spec fn is_switched(on: bool, vars: Map<Seq<char>, Seq<char>>, name: Seq<char>) -> bool {
    &&& !vars.contains_key(name) ==> !on
    &&& vars.contains_key(name) && says_true(vars[name]) ==> on
    &&& vars.contains_key(name) && is_ascii_chars(vars[name]) && !says_true(vars[name]) ==> !on
}

proof fn switched(vars: Map<Seq<char>, Seq<char>>, name: Seq<char>)
    ensures
        is_switched(crate::env::is_true(vars, name), vars, name),
{
    if vars.contains_key(name) {
        if says_true(vars[name]) {
            true_is_ascii(vars[name]);
        }
        if is_ascii_chars(vars[name]) {
            lowered_true(vars[name]);
        }
    }
}

/// Switches are on if they say so, and otherwise off.
pub proof fn switches_say_true(vars: EnvVars, name: &str, r: bool)
    requires
        call_ensures(env_is_true, (&vars, name), r),
    ensures
        is_switched(r, vars@, name@),
{
    switched(vars@, name@);
}

/// The value of a digit below sixteen, by its character.
pub open spec fn is_digit_of(c: char, d: int) -> bool {
    ||| 0 <= d < 10 && c as u32 == 48 + d
    ||| 10 <= d < 16 && c as u32 == 97 + d - 10
    ||| 10 <= d < 16 && c as u32 == 65 + d - 10
}

/// One digit is read as its value; a digit more is worth its value, and what
/// stands before it the radix times as much. What is greater than the limit is
/// no number.
pub proof fn numbers_are_read_digit_by_digit(
    s: &str,
    longer: &str,
    c: char,
    d: int,
    radix: u64,
    max: u64,
    r: Option<u64>,
    rl: Option<u64>,
)
    requires
        2 <= radix <= 16,
        0 <= d < radix,
        is_digit_of(c, d),
        longer@ == s@.push(c),
        call_ensures(parse_unsigned, (s, radix, max), r),
        call_ensures(parse_unsigned, (longer, radix, max), rl),
    ensures
        s@.len() == 0 ==> r is None && rl == (if d <= max {
            Some(d as u64)
        } else {
            None
        }),
        r is Some ==> rl == (if r->0 * radix + d <= max {
            Some((r->0 * radix + d) as u64)
        } else {
            None
        }),
{
    assert(longer@.drop_last() =~= s@);
    let plus = s@.len() > 0 && s@[0] == '+';
    let digits = if plus {
        s@.skip(1)
    } else {
        s@
    };
    assert(crate::number::digit_value(c, radix as nat) == Some(d as nat));
    if s@.len() > 0 {
        assert(longer@[0] == s@[0]);
        if plus {
            assert(longer@.skip(1) =~= digits.push(c));
        }
    } else {
        assert(longer@[0] == c);
        assert(c != '+');
    }
    let all = if plus {
        longer@.skip(1)
    } else {
        longer@
    };
    assert(all =~= digits.push(c));
    assert(all.drop_last() =~= digits);
    assert(all.last() == c);
    if s@.len() == 0 {
        assert(digits.len() == 0);
        assert(crate::number::digits_value(digits, radix as nat) == Some(0nat));
        assert(0 * (radix as nat) == 0) by (nonlinear_arith);
        assert(crate::number::digits_value(all, radix as nat) == Some(d as nat));
    }
    if r is Some {
        let v = r->0;
        assert(v * radix + d >= 0) by (nonlinear_arith)
            requires
                v >= 0,
                radix >= 0,
                d >= 0,
        ;
    }
}

/// A plus sign before a number without one changes nothing. No number is read
/// from a text that holds anything but digits after it, nor from none.
pub proof fn only_digits_are_numbers(
    s: &str,
    signed: &str,
    radix: u64,
    max: u64,
    r: Option<u64>,
    rs: Option<u64>,
    i: int,
)
    requires
        2 <= radix <= 16,
        signed@ == seq!['+'] + s@,
        call_ensures(parse_unsigned, (s, radix, max), r),
        call_ensures(parse_unsigned, (signed, radix, max), rs),
        s@.len() == 0 || s@[0] != '+',
    ensures
        rs == r,
        s@.len() == 0 ==> r is None,
        0 <= i < s@.len() && (forall|d: int| 0 <= d < radix ==> !#[trigger] is_digit_of(s@[i], d))
            ==> r is None,
        r is Some ==> r->0 <= max,
{
    assert(signed@.skip(1) =~= s@);
    assert(signed@[0] == '+');
    if 0 <= i < s@.len() && (forall|d: int| 0 <= d < radix ==> !#[trigger] is_digit_of(s@[i], d)) {
        let p = s@[i] as u32;
        let v: int = if 48 <= p <= 57 {
            p - 48
        } else if 97 <= p <= 122 {
            p - 97 + 10
        } else if 65 <= p <= 90 {
            p - 65 + 10
        } else {
            radix as int
        };
        assert(v < radix ==> is_digit_of(s@[i], v));
        assert(crate::number::digit_value(s@[i], radix as nat) is None);
        no_value(s@, radix as nat, i);
    }
}

proof fn no_value(s: Seq<char>, radix: nat, i: int)
    requires
        0 <= i < s.len(),
        crate::number::digit_value(s[i], radix) is None,
    ensures
        crate::number::digits_value(s, radix) is None,
    decreases s.len(),
{
    if i < s.len() - 1 {
        no_value(s.drop_last(), radix, i);
    }
}

/// What decimal digits are worth.
pub open spec fn worth(s: Seq<char>) -> int
    decreases s.len(),
{
    if s.len() == 0 {
        0
    } else {
        worth(s.drop_last()) * 10 + (s.last() as u32 - 48)
    }
}

proof fn digits_are_worth(s: Seq<char>)
    requires
        is_all_digits(s),
    ensures
        worth(s) >= 0,
        crate::number::digits_value(s, 10) == Some(worth(s) as nat),
    decreases s.len(),
{
    if s.len() > 0 {
        assert(s[s.len() - 1] == s.last());
        digits_are_worth(s.drop_last());
    }
}

/// The number is what the variable is set to, in decimal digits; and it is the
/// default where the variable is unset, is no number, or exceeds the limit.
pub open spec fn is_number_variable(
    n: int,
    vars: Map<Seq<char>, Seq<char>>,
    name: Seq<char>,
    default: int,
    max: int,
) -> bool {
    let text = vars[name];
    if vars.contains_key(name) && text.len() > 0 && is_all_digits(text) && worth(text) <= max {
        n == worth(text)
    } else {
        (vars.contains_key(name) && text.len() > 1 && text[0] == '+' && is_all_digits(text.skip(1))
            && n == worth(text.skip(1))) || n == default
    }
}

proof fn no_digit(c: char)
    requires
        !('0' <= c <= '9'),
    ensures
        crate::number::digit_value(c, 10) is None,
{
}

proof fn number_is(vars: Map<Seq<char>, Seq<char>>, name: Seq<char>, default: nat, max: nat)
    ensures
        is_number_variable(
            number_setting(vars, name, default, max) as int,
            vars,
            name,
            default as int,
            max as int,
        ),
{
    let text = vars[name];
    if vars.contains_key(name) && text.len() > 0 {
        let signed = text[0] == '+';
        let digits = if signed {
            text.skip(1)
        } else {
            text
        };
        if is_all_digits(text) {
            assert(!signed);
        }
        if is_all_digits(digits) {
            digits_are_worth(digits);
        } else {
            let i = choose|i: int| 0 <= i < digits.len() && !('0' <= #[trigger] digits[i] <= '9');
            no_digit(digits[i]);
            no_value(digits, 10, i);
        }
    }
}

/// Numbers are read from their variables, or are the defaults.
pub proof fn numbers_are_variables(
    vars: EnvVars,
    name: &str,
    default: u64,
    small: u32,
    r: u64,
    s: u32,
)
    requires
        call_ensures(env_u64, (&vars, name, default), r),
        call_ensures(env_u32, (&vars, name, small), s),
    ensures
        is_number_variable(r as int, vars@, name@, default as int, u64::MAX as int),
        is_number_variable(s as int, vars@, name@, small as int, u32::MAX as int),
{
    number_is(vars@, name@, default as nat, u64::MAX as nat);
    number_is(vars@, name@, small as nat, u32::MAX as nat);
}

/// The time limits of connections, the pauses between rounds, the number of
/// attempts and the port are each those of their own variables, or their
/// defaults.
pub proof fn limits_are_variables(
    vars: EnvVars,
    settings: Settings,
    features: Features,
    ctx: Ctx,
    url: &str,
    client: ClientSettings,
    namespace: &str,
    outcome: Result<(), WErr>,
    next: NextRound,
    port: u16,
    retries: u32,
    made: &mut Option<HttpCfg>,
    username_file: Option<String>,
    password_file: Option<String>,
)
    requires
        call_ensures(make_ctx, (&settings, &features, &vars), ctx),
        call_ensures(init_client, (&vars, url), client),
        call_ensures(watch_task, (&ctx, namespace, outcome, &vars), next),
        call_ensures(health_port, (&vars,), port),
        call_ensures(transport_retries, (&vars,), retries),
        call_ensures(init, (made, &vars, username_file, password_file), ()),
    ensures
        is_number_variable(
            ctx.watch_server_timeout as int,
            vars@,
            "WATCH_SERVER_TIMEOUT"@,
            60,
            u64::MAX as int,
        ),
        is_number_variable(
            ctx.watch_client_timeout as int,
            vars@,
            "WATCH_CLIENT_TIMEOUT"@,
            66,
            u64::MAX as int,
        ),
        client.read_timeout == ctx.watch_client_timeout,
        next is Sleep ==> is_number_variable(
            next->Sleep_0 as int,
            vars@,
            "SLEEP_TIME"@,
            60,
            u64::MAX as int,
        ),
        next is Throttle ==> is_number_variable(
            next->Throttle_1 as int,
            vars@,
            "ERROR_THROTTLE_SLEEP"@,
            5,
            u64::MAX as int,
        ),
        is_number_variable(port as int, vars@, "HEALTH_PORT"@, 8080, u16::MAX as int),
        is_number_variable(retries as int, vars@, "REQ_RETRY_TOTAL"@, 5, u32::MAX as int),
        *old(made) is None ==> *final(made) is Some && is_number_variable(
            (*final(made))->0.retry_total as int,
            vars@,
            "REQ_RETRY_TOTAL"@,
            5,
            u32::MAX as int,
        ),
{
    number_is(vars@, "WATCH_SERVER_TIMEOUT"@, 60, u64::MAX as nat);
    number_is(vars@, "WATCH_CLIENT_TIMEOUT"@, 66, u64::MAX as nat);
    number_is(vars@, "SLEEP_TIME"@, 60, u64::MAX as nat);
    number_is(vars@, "ERROR_THROTTLE_SLEEP"@, 5, u64::MAX as nat);
    number_is(vars@, "HEALTH_PORT"@, 8080, u16::MAX as nat);
    number_is(vars@, "REQ_RETRY_TOTAL"@, 5, u32::MAX as nat);
}

/// A number is read back from its decimal notation.
pub proof fn notation_is_read_back(n: u64, text: String, s: &str, max: u64, r: Option<u64>)
    requires
        call_ensures(decimal_string, (n,), text),
        s@ == text@,
        n <= max,
        call_ensures(parse_unsigned, (s, 10u64, max), r),
    ensures
        r == Some(n),
        is_all_digits(text@),
        text@.len() > 1 ==> text@[0] != '0',
{
    decimal_is_worth(n as nat);
    digits_are_worth(text@);
    assert(text@[0] != '+');
}

proof fn decimal_is_worth(n: nat)
    ensures
        decimal(n).len() > 0,
        is_all_digits(decimal(n)),
        worth(decimal(n)) == n,
        n > 0 ==> decimal(n)[0] != '0',
        n == 0 ==> decimal(n).len() == 1,
        '0' <= decimal(n)[0] <= '9',
    decreases n,
{
    if n < 10 {
        let s = decimal(n);
        assert(s.len() == 1 && s[0] == digit(n));
        assert(s.drop_last() =~= Seq::empty());
        assert(worth(s.drop_last()) == 0);
    } else {
        decimal_is_worth(n / 10);
        let s = decimal(n);
        assert(s.drop_last() =~= decimal(n / 10));
        assert(s.last() == digit(n % 10));
        assert forall|i: int| 0 <= i < s.len() implies '0' <= #[trigger] s[i] <= '9' by {
            if i < s.len() - 1 {
                assert(s[i] == decimal(n / 10)[i]);
            }
        }
        assert(s[0] == decimal(n / 10)[0]);
    }
}

/// A variable has the value of the first pair with its name, and is unset if
/// there is none.
pub proof fn first_pair_counts(
    pairs: Vec<(String, String)>,
    vars: EnvVars,
    name: &str,
    r: Option<String>,
    i: int,
)
    requires
        call_ensures(EnvVars::new, (pairs,), vars),
        call_ensures(EnvVars::value, (&vars, name), r),
        0 <= i <= pairs@.len(),
        forall|j: int| 0 <= j < i ==> (#[trigger] pairs@[j]).0@ != name@,
        i < pairs@.len() ==> pairs@[i].0@ == name@,
    ensures
        i < pairs@.len() ==> r is Some && r->0@ == pairs@[i].1@,
        i == pairs@.len() ==> r is None,
{
    first_pair(pairs@, name@, i);
}

proof fn first_pair(pairs: Seq<(String, String)>, name: Seq<char>, i: int)
    requires
        0 <= i <= pairs.len(),
        forall|j: int| 0 <= j < i ==> (#[trigger] pairs[j]).0@ != name,
        i < pairs.len() ==> pairs[i].0@ == name,
    ensures
        pairs_map(pairs).contains_key(name) == (i < pairs.len()),
        i < pairs.len() ==> pairs_map(pairs)[name] == pairs[i].1@,
    decreases pairs.len(),
{
    if pairs.len() > 0 && i > 0 {
        assert(pairs[0].0@ != name);
        let rest = pairs.skip(1);
        assert forall|j: int| 0 <= j < i - 1 implies (#[trigger] rest[j]).0@ != name by {
            assert(rest[j] == pairs[j + 1]);
        }
        if i < pairs.len() {
            assert(rest[i - 1] == pairs[i]);
        }
        first_pair(rest, name, i - 1);
    }
}

// ---------------------------------------------------------------------------
// Settings
// ---------------------------------------------------------------------------

/// The string is the value of the variable, or the default where it is unset.
pub open spec fn is_variable_or(
    value: Seq<char>,
    vars: Map<Seq<char>, Seq<char>>,
    name: Seq<char>,
    default: Seq<char>,
) -> bool {
    &&& vars.contains_key(name) ==> value == vars[name]
    &&& !vars.contains_key(name) ==> value == default
}

/// The string is the value of the variable, unless that is empty.
pub open spec fn is_filled_variable(
    value: Option<String>,
    vars: Map<Seq<char>, Seq<char>>,
    name: Seq<char>,
) -> bool {
    &&& value is Some <==> vars.contains_key(name) && vars[name].len() > 0
    &&& value is Some ==> value->0@ == vars[name]
}

/// The kinds are those that the word asks for: both, Secrets first; or one of
/// them.
pub open spec fn are_kinds(kinds: Seq<Kind>, resource: Seq<char>) -> bool {
    &&& resource == "both"@ ==> kinds.len() == 2 && kinds[0] == Kind::Secret && kinds[1]
        == Kind::ConfigMap
    &&& resource == "secret"@ ==> kinds.len() == 1 && kinds[0] == Kind::Secret
    &&& resource != "both"@ && resource != "secret"@ ==> kinds.len() == 1 && kinds[0]
        == Kind::ConfigMap
}

/// Every setting is that of its own variable.
pub open spec fn are_settings(s: Settings, vars: Map<Seq<char>, Seq<char>>) -> bool {
    &&& is_variable_or(
        s.folder_annotation@,
        vars,
        "FOLDER_ANNOTATION"@,
        "k8s-sidecar-target-directory"@,
    )
    &&& s.label@ == vars["LABEL"@]
    &&& is_filled_variable(s.label_value, vars, "LABEL_VALUE"@)
    &&& s.target_folder@ == vars["FOLDER"@]
    &&& vars.contains_key("RESOURCE"@) ==> are_kinds(s.kinds@, vars["RESOURCE"@])
    &&& !vars.contains_key("RESOURCE"@) ==> s.kinds@.len() == 1 && s.kinds@[0] == Kind::ConfigMap
    &&& is_variable_or(s.resource_name@, vars, "RESOURCE_NAME"@, Seq::empty())
    &&& is_variable(s.request_method, vars, "REQ_METHOD"@)
    &&& is_variable(s.request_url, vars, "REQ_URL"@)
    &&& is_switched(s.request_skip_init, vars, "REQ_SKIP_INIT"@)
    &&& s.request_payload is Some <==> vars.contains_key("REQ_PAYLOAD"@)
        && vars["REQ_PAYLOAD"@].len() > 0
    &&& is_variable(s.script, vars, "SCRIPT"@)
}

proof fn read_settings_are(s: Settings, vars: Map<Seq<char>, Seq<char>>)
    requires
        is_settings(s, vars),
    ensures
        are_settings(s, vars),
{
    switched(vars, "REQ_SKIP_INIT"@);
    reveal_strlit("both");
    reveal_strlit("secret");
    reveal_strlit("configmap");
    assert("both"@.len() == 4 && "secret"@.len() == 6 && "configmap"@.len() == 9);
}

/// Every setting is that of its own variable. There are none without a label
/// and a folder, which is said.
pub proof fn settings_are_variables(vars: EnvVars, r: (Vec<LogEntry>, Option<Settings>))
    requires
        call_ensures(read_settings, (&vars,), r),
    ensures
        r.1 is Some <==> vars@.contains_key("LABEL"@) && vars@.contains_key("FOLDER"@),
        r.1 is None ==> r.0@.len() > 0 && r.0@.last().level == Level::Critical,
        r.1 is Some ==> are_settings(r.1->0, vars@),
{
    if r.1 is None {
        let log = entry_views(r.0@);
        assert(log.len() == r.0@.len());
        assert(log.last().0 == Level::Critical);
        assert(log.last() == r.0@.last()@);
    } else {
        read_settings_are(r.1->0, vars@);
    }
}

/// The kinds of the settings are those that `RESOURCE` asks for.
pub proof fn kinds_are_selected(
    vars: EnvVars,
    r: (Vec<LogEntry>, Option<Settings>),
    resource: &str,
    k: (Vec<Kind>, String),
)
    requires
        call_ensures(read_settings, (&vars,), r),
        call_ensures(selected_kinds, (resource,), k),
        is_variable_or(resource@, vars@, "RESOURCE"@, "configmap"@),
    ensures
        are_kinds(k.0@, resource@),
        r.1 is Some ==> r.1->0.kinds@ == k.0@,
{
    reveal_strlit("both");
    reveal_strlit("secret");
    assert("both"@.len() != "secret"@.len());
}

/// A payload that is JSON is sent in its compact form.
pub proof fn json_is_sent_as_it_is(payload: &str, compact: String, r: String)
    requires
        call_ensures(payload_from, (payload, Some(compact)), r),
    ensures
        r@ == compact@,
{
}

/// The payload of the settings is the compact form of what is set, where that
/// is JSON, and else what is set as a JSON string.
pub proof fn payload_is_sent_as_json(
    vars: EnvVars,
    r: (Vec<LogEntry>, Option<Settings>),
    text: &str,
    quoted: String,
)
    requires
        call_ensures(read_settings, (&vars,), r),
        r.1 is Some,
        vars@.contains_key("REQ_PAYLOAD"@) && text@ == vars@["REQ_PAYLOAD"@] && text@.len() > 0,
        call_ensures(payload_from, (text, None), quoted),
    ensures
        r.1->0.request_payload is Some,
        json_reprinted(text@) is Some ==> r.1->0.request_payload->0@ == json_reprinted(text@)->0,
        json_reprinted(text@) is None ==> r.1->0.request_payload->0@ == quoted@,
{
}

/// Another payload is sent in quotation marks, and two different ones are sent
/// differently.
pub proof fn text_is_sent_in_quotation_marks(payload: &str, other: &str, r: String, s: String)
    requires
        call_ensures(payload_from, (payload, None), r),
        call_ensures(payload_from, (other, None), s),
    ensures
        r@.len() >= 2,
        r@[0] == '"',
        r@.last() == '"',
        r@ == s@ ==> payload@ == other@,
{
    if r@ == s@ {
        crate::text::json_differs(payload@, other@);
    }
}

/// Each feature has its own switch.
pub proof fn features_are_switched(vars: EnvVars, r: (Vec<LogEntry>, Features))
    requires
        call_ensures(read_features, (&vars,), r),
    ensures
        is_switched(r.1.unique_filenames, vars@, "UNIQUE_FILENAMES"@),
        is_switched(r.1.enable_5xx, vars@, "ENABLE_5XX"@),
        r.0@.len() == 2,
{
    switched(vars@, "UNIQUE_FILENAMES"@);
    switched(vars@, "ENABLE_5XX"@);
    assert(entry_views(r.0@).len() == r.0@.len());
}

/// What is synced, and how, is what the settings and the features say, each in
/// its place; and what `METHOD` says, and the two time limits.
pub proof fn context_is_as_set(settings: Settings, features: Features, vars: EnvVars, r: Ctx)
    requires
        call_ensures(make_ctx, (&settings, &features, &vars), r),
    ensures
        r.label@ == settings.label@,
        r.label_value == settings.label_value,
        r.target_folder@ == settings.target_folder@,
        r.folder_annotation@ == settings.folder_annotation@,
        r.req_method == settings.request_method,
        r.req_payload == settings.request_payload,
        r.script == settings.script,
        r.unique_filenames == features.unique_filenames,
        r.enable_5xx == features.enable_5xx,
        r.resource_name@ == settings.resource_name@,
        is_variable(r.mode, vars@, "METHOD"@),
        !vars@.contains_key("WATCH_SERVER_TIMEOUT"@) ==> r.watch_server_timeout == 60,
        !vars@.contains_key("WATCH_CLIENT_TIMEOUT"@) ==> r.watch_client_timeout == 66,
{
}

// ---------------------------------------------------------------------------
// The version of the cluster
// ---------------------------------------------------------------------------

/// All characters are decimal digits.
pub open spec fn is_all_digits(s: Seq<char>) -> bool {
    forall|i: int| 0 <= i < s.len() ==> '0' <= #[trigger] s[i] <= '9'
}

proof fn digits_of_digits(s: Seq<char>)
    requires
        is_all_digits(s),
    ensures
        digits_of(s) == s,
    decreases s.len(),
{
    if s.len() > 0 {
        assert(s[s.len() - 1] == s.last());
        digits_of_digits(s.drop_last());
        assert(s.drop_last().push(s.last()) =~= s);
    } else {
        assert(s =~= Seq::empty());
    }
}

proof fn digits_are_digits(s: Seq<char>)
    ensures
        is_all_digits(digits_of(s)),
    decreases s.len(),
{
    if s.len() > 0 {
        digits_are_digits(s.drop_last());
    }
}

/// A version is recent from 1.19 on, and so are all later ones.
pub proof fn recent_from_119(
    major: &str,
    minor: &str,
    m: Option<u64>,
    n: Option<u64>,
    r: bool,
)
    requires
        is_all_digits(major@) && major@.len() > 0,
        is_all_digits(minor@) && minor@.len() > 0,
        call_ensures(parse_unsigned, (major, 10u64, u64::MAX), m),
        call_ensures(parse_unsigned, (minor, 10u64, u64::MAX), n),
        m is Some && n is Some,
        call_ensures(version_is_recent, (major, minor), r),
    ensures
        r <==> m->0 > 1 || (m->0 == 1 && n->0 >= 19),
{
    digits_of_digits(major@);
    digits_of_digits(minor@);
}

/// Of the parts of a version only the digits count: any other character may be
/// left out, and a part without digits is not recent.
pub proof fn only_digits_of_versions_count(
    a: Seq<char>,
    c: char,
    b: Seq<char>,
    part: &str,
    shorter: &str,
    other: &str,
    r: bool,
    s: bool,
    t: bool,
    u: bool,
)
    requires
        !('0' <= c <= '9'),
        part@ == a.push(c) + b,
        shorter@ == a + b,
        call_ensures(version_is_recent, (part, other), r),
        call_ensures(version_is_recent, (shorter, other), s),
        call_ensures(version_is_recent, (other, part), t),
        call_ensures(version_is_recent, (other, shorter), u),
    ensures
        r == s,
        t == u,
        shorter@.len() == 0 ==> !r && !t,
{
    digits_without(a, c, b);
    if shorter@.len() == 0 {
        assert(digits_of(shorter@).len() == 0);
    }
}

proof fn digits_without(a: Seq<char>, c: char, b: Seq<char>)
    requires
        !('0' <= c <= '9'),
    ensures
        digits_of(a.push(c) + b) == digits_of(a + b),
    decreases b.len(),
{
    let s = a.push(c) + b;
    if b.len() == 0 {
        assert(s =~= a.push(c));
        assert(s.drop_last() =~= a);
        assert(a + b =~= a);
    } else {
        digits_without(a, c, b.drop_last());
        assert(s.drop_last() =~= a.push(c) + b.drop_last());
        assert((a + b).drop_last() =~= a + b.drop_last());
        assert(s.last() == b.last() && (a + b).last() == b.last());
    }
}

/// Versions of resources are ignored only if the version of the cluster is
/// known, and recent.
pub proof fn known_and_recent_versions_allow_it(
    asked: Option<Result<Version, ()>>,
    r: (Vec<LogEntry>, bool),
    recent: bool,
)
    requires
        call_ensures(decide_ignore, (asked,), r),
        asked matches Some(Ok(v)) ==> exists|major: &str, minor: &str|
            major@ == v.major@ && minor@ == v.minor@ && #[trigger] call_ensures(
                version_is_recent,
                (major, minor),
                recent,
            ),
    ensures
        asked is None ==> !r.1,
        asked matches Some(Err(_)) ==> !r.1,
        asked matches Some(Ok(_)) ==> r.1 == recent,
{
}

// ---------------------------------------------------------------------------
// Targets
// ---------------------------------------------------------------------------

/// The namespaces in `NAMESPACE` go before that of the service account.
pub proof fn namespace_is_chosen(vars: EnvVars, service_account: String, r: String)
    requires
        call_ensures(chosen_namespace, (&vars, service_account), r),
    ensures
        is_variable_or(r@, vars@, "NAMESPACE"@, service_account@),
{
}

proof fn target_place(kinds: Seq<Kind>, namespaces: Seq<Seq<char>>, k: int, n: int)
    requires
        0 <= k < kinds.len(),
        0 <= n < namespaces.len(),
    ensures
        targets_of(kinds, namespaces).len() == kinds.len() * namespaces.len(),
        0 <= k * namespaces.len() + n < kinds.len() * namespaces.len(),
        targets_of(kinds, namespaces)[k * namespaces.len() + n] == (kinds[k], namespaces[n]),
    decreases kinds.len(),
{
    let init = kinds.drop_last();
    let size = namespaces.len();
    targets_len(init, namespaces);
    targets_len(kinds, namespaces);
    let before = targets_of(init, namespaces);
    let own = targets_of_kind(kinds.last(), namespaces);
    assert(own[n] == (kinds.last(), namespaces[n]));
    assert(0 <= k * size) by (nonlinear_arith)
        requires
            k >= 0,
            size >= 0,
    ;
    assert((k + 1) * size <= kinds.len() * size) by (nonlinear_arith)
        requires
            k + 1 <= kinds.len(),
            size >= 0,
    ;
    assert((k + 1) * size == k * size + size) by (nonlinear_arith);
    if k < init.len() {
        target_place(init, namespaces, k, n);
        assert(init[k] == kinds[k]);
    } else {
        assert(k == init.len());
    }
}

proof fn targets_len(kinds: Seq<Kind>, namespaces: Seq<Seq<char>>)
    ensures
        targets_of(kinds, namespaces).len() == kinds.len() * namespaces.len(),
    decreases kinds.len(),
{
    if kinds.len() > 0 {
        let init = kinds.drop_last();
        targets_len(init, namespaces);
        let size = namespaces.len();
        assert(init.len() * size + size == kinds.len() * size) by (nonlinear_arith)
            requires
                kinds.len() == init.len() + 1,
        ;
    } else {
        assert(kinds.len() * namespaces.len() == 0) by (nonlinear_arith)
            requires
                kinds.len() == 0,
        ;
    }
}

/// One namespace has a target for each kind, in their order.
pub proof fn one_namespace_is_watched(kinds: Vec<Kind>, namespace: &str, r: Vec<(Kind, String)>, k: int)
    requires
        call_ensures(watch_targets, (&kinds, namespace), r),
        !namespace@.contains(','),
        0 <= k < kinds@.len(),
    ensures
        r@.len() == kinds@.len(),
        r@[k].0 == kinds@[k],
        r@[k].1@ == namespace@,
{
    one_piece(namespace@, ',');
    target_place(kinds@, seq![namespace@], k, 0);
    let t = target_views(r@);
    assert(kinds@.len() * 1 == kinds@.len());
    assert(k * 1 + 0 == k);
    assert(t.len() == r@.len());
    assert(t[k] == (r@[k].0, r@[k].1@));
}

/// Where two lists of namespaces are joined by a comma, each kind has the
/// targets that it has for the first list, and after them those that it has for
/// the second.
pub proof fn every_namespace_is_watched(
    kind: Kind,
    kinds: Vec<Kind>,
    a: &str,
    b: &str,
    both: &str,
    ra: Vec<(Kind, String)>,
    rb: Vec<(Kind, String)>,
    r: Vec<(Kind, String)>,
)
    requires
        kinds@ == seq![kind],
        both@ == a@.push(',') + b@,
        call_ensures(watch_targets, (&kinds, a), ra),
        call_ensures(watch_targets, (&kinds, b), rb),
        call_ensures(watch_targets, (&kinds, both), r),
    ensures
        r@.len() == ra@.len() + rb@.len(),
        forall|i: int|
            0 <= i < ra@.len() ==> (#[trigger] r@[i]).0 == ra@[i].0 && r@[i].1@ == ra@[i].1@,
        forall|i: int|
            0 <= i < rb@.len() ==> r@[ra@.len() + i].0 == (#[trigger] rb@[i]).0 && r@[ra@.len()
                + i].1@ == rb@[i].1@,
{
    pieces_of_both(a@, b@, ',');
    let pa = pieces(a@, ',');
    let pb = pieces(b@, ',');
    let t = target_views(r@);
    let ta = target_views(ra@);
    let tb = target_views(rb@);
    assert(kinds@.drop_last() =~= Seq::empty());
    reveal_with_fuel(targets_of, 2);
    assert(ta =~= targets_of_kind(kind, pa));
    assert(tb =~= targets_of_kind(kind, pb));
    assert(t =~= targets_of_kind(kind, pa + pb));
    assert(t =~= ta + tb);
    assert(t.len() == r@.len() && ta.len() == ra@.len() && tb.len() == rb@.len());
    assert forall|i: int| 0 <= i < ra@.len() implies (#[trigger] r@[i]).0 == ra@[i].0 && r@[i].1@
        == ra@[i].1@ by {
        assert(t[i] == ta[i]);
    }
    assert forall|i: int| 0 <= i < rb@.len() implies r@[ra@.len() + i].0 == (#[trigger] rb@[i]).0
        && r@[ra@.len() + i].1@ == rb@[i].1@ by {
        assert(t[ra@.len() + i] == tb[i]);
    }
}

/// With two kinds the targets of the first one come first, and then those of
/// the second.
pub proof fn every_kind_is_watched(
    first: Kind,
    second: Kind,
    kinds: Vec<Kind>,
    one: Vec<Kind>,
    two: Vec<Kind>,
    namespace: &str,
    ra: Vec<(Kind, String)>,
    rb: Vec<(Kind, String)>,
    r: Vec<(Kind, String)>,
)
    requires
        kinds@ == seq![first, second],
        one@ == seq![first],
        two@ == seq![second],
        call_ensures(watch_targets, (&one, namespace), ra),
        call_ensures(watch_targets, (&two, namespace), rb),
        call_ensures(watch_targets, (&kinds, namespace), r),
    ensures
        r@.len() == ra@.len() + rb@.len(),
        forall|i: int|
            0 <= i < ra@.len() ==> (#[trigger] r@[i]).0 == ra@[i].0 && r@[i].1@ == ra@[i].1@,
        forall|i: int|
            0 <= i < rb@.len() ==> r@[ra@.len() + i].0 == (#[trigger] rb@[i]).0 && r@[ra@.len()
                + i].1@ == rb@[i].1@,
{
    let p = pieces(namespace@, ',');
    let t = target_views(r@);
    let ta = target_views(ra@);
    let tb = target_views(rb@);
    assert(one@.drop_last() =~= Seq::empty());
    assert(two@.drop_last() =~= Seq::empty());
    assert(kinds@.drop_last() =~= seq![first]);
    assert(seq![first].drop_last() =~= Seq::empty());
    reveal_with_fuel(targets_of, 3);
    assert(ta =~= targets_of_kind(first, p));
    assert(tb =~= targets_of_kind(second, p));
    assert(t =~= ta + tb);
    assert(t.len() == r@.len() && ta.len() == ra@.len() && tb.len() == rb@.len());
    assert forall|i: int| 0 <= i < ra@.len() implies (#[trigger] r@[i]).0 == ra@[i].0 && r@[i].1@
        == ra@[i].1@ by {
        assert(t[i] == ta[i]);
    }
    assert forall|i: int| 0 <= i < rb@.len() implies r@[ra@.len() + i].0 == (#[trigger] rb@[i]).0
        && r@[ra@.len() + i].1@ == rb@[i].1@ by {
        assert(t[ra@.len() + i] == tb[i]);
    }
}

// ---------------------------------------------------------------------------
// Stages
// ---------------------------------------------------------------------------

/// The first sync is the only one if `METHOD` is LIST; otherwise changes are
/// watched after it, it notes the versions of resources, and it does not
/// request the URL where that is to be skipped.
pub proof fn first_sync_is_as_set(ctx: Ctx, settings: Settings, ignore: bool, r: FirstSync)
    requires
        call_ensures(first_sync, (&ctx, &settings, ignore), r),
    ensures
        ({
            let only = ctx.mode is Some && ctx.mode->0@ == "LIST"@;
            let skipped = !only && settings.request_skip_init;
            &&& r.watches == !only
            &&& only ==> r.ignore_already_processed == ignore
            &&& !only ==> r.ignore_already_processed
            &&& r.request_url is Some <==> settings.request_url is Some && !skipped
            &&& r.request_url is Some ==> r.request_url->0@ == settings.request_url->0@
        }),
{
}

/// Without a label or a folder the program ends well before anything is done;
/// else a client is set up.
pub proof fn start_takes_label_and_folder(vars: EnvVars, r: (Vec<LogEntry>, Stage))
    requires
        call_ensures(start, (&vars,), r),
    ensures
        vars@.contains_key("LABEL"@) && vars@.contains_key("FOLDER"@) ==> r.1 is Connect
            && are_settings(r.1->Connect_0, vars@),
        !vars@.contains_key("LABEL"@) || !vars@.contains_key("FOLDER"@) ==> r.1 == Stage::Exit(0),
{
    if r.1 is Connect {
        read_settings_are(r.1->Connect_0, vars@);
    }
}

/// Without a client the program ends with an error. With one, the version of
/// the cluster is asked for exactly if versions are to be ignored; the settings
/// stay.
pub proof fn connection_is_needed(
    settings: Settings,
    vars: EnvVars,
    outcome: Result<(), String>,
    wanted: bool,
    r: (Vec<LogEntry>, Stage),
)
    requires
        call_ensures(connected, (settings, &vars, outcome), r),
        call_ensures(env_is_true, (&vars, "IGNORE_ALREADY_PROCESSED"), wanted),
    ensures
        outcome is Err ==> r.1 == Stage::Exit(1),
        outcome is Ok && wanted ==> {
            &&& r.1 matches Stage::AskVersion(p)
            &&& p.settings == settings
            &&& is_switched(p.features.unique_filenames, vars@, "UNIQUE_FILENAMES"@)
            &&& is_switched(p.features.enable_5xx, vars@, "ENABLE_5XX"@)
        },
        outcome is Ok && !wanted ==> {
            &&& r.1 matches Stage::ReadNamespace(p)
            &&& p.settings == settings
            &&& is_switched(p.features.unique_filenames, vars@, "UNIQUE_FILENAMES"@)
            &&& is_switched(p.features.enable_5xx, vars@, "ENABLE_5XX"@)
            &&& !p.ignore_already_processed
        },
{
    switched(vars@, "UNIQUE_FILENAMES"@);
    switched(vars@, "ENABLE_5XX"@);
}

/// The version decides on whether versions are ignored, and on nothing else.
pub proof fn version_decides_on_one_thing(
    prepared: Prepared,
    version: Result<Version, ()>,
    decided: (Vec<LogEntry>, bool),
    r: (Vec<LogEntry>, Stage),
)
    requires
        call_ensures(Prepared::version_received, (prepared, version), r),
        call_ensures(decide_ignore, (Some(version),), decided),
    ensures
        r.1 matches Stage::ReadNamespace(p) && p.settings == prepared.settings && p.features
            == prepared.features && p.ignore_already_processed == decided.1,
{
}

/// After a target was synced the next one is, until all are; only then the
/// sidecar is ready, and goes on to watch or ends well. A failure ends the
/// program with an error, and leaves it as ready as it was.
pub proof fn targets_are_synced_in_turn(
    launch: Launch,
    health: &mut Health,
    outcome: Result<(), WErr>,
    r: (Vec<LogEntry>, Stage),
)
    requires
        call_ensures(Launch::synced, (launch, health, outcome), r),
        launch.done < launch.targets@.len(),
    ensures
        outcome is Err ==> r.1 == Stage::Exit(1) && *final(health) == *old(health),
        outcome is Ok && launch.done + 1 < launch.targets@.len() ==> {
            &&& r.1 matches Stage::Sync(next)
            &&& next.done == launch.done + 1
            &&& next.targets == launch.targets
            &&& next.ctx == launch.ctx
            &&& next.first == launch.first
            &&& next.request_url == launch.request_url
            &&& next.ignore_already_processed == launch.ignore_already_processed
            &&& *final(health) == *old(health)
        },
        outcome is Ok && launch.done + 1 == launch.targets@.len() ==> {
            &&& final(health).ready
            &&& final(health).last_contact_ms == old(health).last_contact_ms
            &&& final(health).watchers == old(health).watchers
            &&& !launch.first.watches ==> r.1 == Stage::Exit(0)
            &&& launch.first.watches ==> {
                &&& r.1 matches Stage::Watch(next)
                &&& next.targets == launch.targets
                &&& next.ctx == launch.ctx
                &&& next.request_url == launch.request_url
                &&& next.ignore_already_processed == launch.ignore_already_processed
            }
        },
{
    assert(launch.targets.len() == launch.targets@.len());
}

/// Once the namespace of the service account is known the first target is
/// synced, of those for the kinds and namespaces that are set; without it the
/// program ends with an error.
pub proof fn sync_begins_with_the_first_target(
    prepared: Prepared,
    vars: EnvVars,
    health: &mut Health,
    read: Result<String, String>,
    r: (Vec<LogEntry>, Stage),
    namespace: String,
    targets: Vec<(Kind, String)>,
)
    requires
        call_ensures(Prepared::namespace_read, (prepared, &vars, health, read), r),
        read is Ok ==> call_ensures(chosen_namespace, (&vars, read->Ok_0), namespace),
        read is Ok ==> exists|text: &str|
            text@ == namespace@ && #[trigger] call_ensures(
                watch_targets,
                (&prepared.settings.kinds, text),
                targets,
            ),
        targets@.len() > 0,
    ensures
        read is Err ==> r.1 == Stage::Exit(1) && *final(health) == *old(health),
        read is Ok ==> {
            &&& r.1 matches Stage::Sync(next)
            &&& next.done == 0
            &&& next.targets@.len() == targets@.len()
            &&& forall|i: int|
                0 <= i < targets@.len() ==> (#[trigger] next.targets@[i]).0 == targets@[i].0
                    && next.targets@[i].1@ == targets@[i].1@
            &&& next.ignore_already_processed == prepared.ignore_already_processed
            &&& next.ctx.label@ == prepared.settings.label@
            &&& next.ctx.label_value == prepared.settings.label_value
            &&& next.ctx.target_folder@ == prepared.settings.target_folder@
            &&& next.ctx.folder_annotation@ == prepared.settings.folder_annotation@
            &&& next.ctx.req_method == prepared.settings.request_method
            &&& next.ctx.req_payload == prepared.settings.request_payload
            &&& next.ctx.script == prepared.settings.script
            &&& next.ctx.unique_filenames == prepared.features.unique_filenames
            &&& next.ctx.enable_5xx == prepared.features.enable_5xx
            &&& next.ctx.resource_name@ == prepared.settings.resource_name@
            &&& is_variable(next.ctx.mode, vars@, "METHOD"@)
            &&& next.first.watches <==> !(vars@.contains_key("METHOD"@) && vars@["METHOD"@]
                == "LIST"@)
            &&& next.first.ignore_already_processed <==> next.first.watches
                || prepared.ignore_already_processed
            &&& next.first.request_url is Some <==> prepared.settings.request_url is Some && !(
            next.first.watches && prepared.settings.request_skip_init)
            &&& next.first.request_url is Some ==> next.first.request_url->0@
                == prepared.settings.request_url->0@
            &&& next.request_url is Some == prepared.settings.request_url is Some
            &&& next.request_url is Some ==> next.request_url->0@ == prepared.settings.request_url->0@
            &&& *final(health) == *old(health)
        },
{
    if read is Ok {
        let t = target_views(targets@);
        assert(t.len() == targets@.len());
        if r.1 is Sync {
            let next = r.1->Sync_0;
            let u = target_views(next.targets@);
            assert(u.len() == next.targets@.len());
            assert(u == t);
            assert forall|i: int| 0 <= i < targets@.len() implies (#[trigger] next.targets@[i]).0
                == targets@[i].0 && next.targets@[i].1@ == targets@[i].1@ by {
                assert(u[i] == t[i]);
            }
        }
    }
}

/// The program ends with an error as soon as one of the watchers has ended, and
/// goes on, without a word, as long as none has.
pub proof fn dead_watchers_end_the_program(
    targets: Vec<(Kind, String)>,
    finished: Vec<bool>,
    r: (Vec<LogEntry>, Option<i32>),
)
    requires
        finished@.len() == targets@.len(),
        call_ensures(monitor, (&targets, &finished), r),
    ensures
        finished@.contains(true) ==> r.1 == Some(1i32),
        !finished@.contains(true) ==> r.1 is None,
        r.1 is None <==> r.0@.len() == 0,
        r.1 is Some ==> r.0@.last().level == Level::Critical,
{
    let log = entry_views(r.0@);
    assert(log.len() == r.0@.len());
    crate::startup::monitor_is_silent(target_views(targets@), finished@);
    if log.len() > 0 {
        assert(log.last() == r.0@.last()@);
    }
    if finished@.contains(true) {
        let i = choose|i: int| 0 <= i < finished@.len() && finished@[i] == true;
        assert(finished@[i]);
    }
    if exists|i: int| 0 <= i < finished@.len() && #[trigger] finished@[i] {
        let i = choose|i: int| 0 <= i < finished@.len() && #[trigger] finished@[i];
        assert(finished@[i] == true);
    }
}

/// A failed first sync ends the program with an error; after a good one the
/// next target follows, and after the last one the sidecar is ready.
pub proof fn next_start_is_next(
    targets: Vec<(Kind, String)>,
    done: usize,
    outcome: Result<(), WErr>,
    first: FirstSync,
    r: StartStep,
)
    requires
        call_ensures(next_start, (&targets, done, outcome, &first), r),
    ensures
        outcome is Err ==> r is Failed && r->Failed_1 == 1,
        outcome is Ok && done < targets@.len() ==> r == StartStep::Sync(done),
        outcome is Ok && done >= targets@.len() ==> (r matches StartStep::Ready { watches }
            && watches == first.watches),
{
}

} // verus!
