//! Text of tab labels and of the path under which a process shows its
//! working directory.

use vstd::prelude::*;
use vstd::string::*;

verus! {

/// What is known of the surroundings when the window is made: the fallback
/// source of a tab's label until its session reports a title.
#[derive(Clone, Debug, PartialEq, Eq)]
pub struct Env {
    pub user: String,
    pub host: String,
    pub cur_dir: String,
}

/// The character of one decimal digit.
pub open spec fn digit_char(d: nat) -> char {
    if d == 0 {
        '0'
    } else if d == 1 {
        '1'
    } else if d == 2 {
        '2'
    } else if d == 3 {
        '3'
    } else if d == 4 {
        '4'
    } else if d == 5 {
        '5'
    } else if d == 6 {
        '6'
    } else if d == 7 {
        '7'
    } else if d == 8 {
        '8'
    } else {
        '9'
    }
}

/// Decimal notation of `n`, most significant digit first, no leading zero.
pub open spec fn decimal(n: nat) -> Seq<char>
    decreases n,
{
    if n < 10 {
        seq![digit_char(n)]
    } else {
        decimal(n / 10).push(digit_char(n % 10))
    }
}

/// `"{number}. {title}"`.
pub open spec fn titled_text(number: nat, title: Seq<char>) -> Seq<char> {
    decimal(number) + seq!['.', ' '] + title
}

/// `"{user}@{host}:{cur_dir}"`.
pub open spec fn default_title(user: Seq<char>, host: Seq<char>, cur_dir: Seq<char>) -> Seq<char> {
    user + seq!['@'] + host + seq![':'] + cur_dir
}

/// `"{number}. {user}@{host}:{cur_dir}"`.
pub open spec fn default_text(number: nat, env: Env) -> Seq<char> {
    titled_text(number, default_title(env.user@, env.host@, env.cur_dir@))
}

/// The label of a tab: by its title where it has one, by the surroundings
/// where it has none.
pub open spec fn label_text(number: nat, title: Option<Seq<char>>, env: Env) -> Seq<char> {
    match title {
        Some(t) => titled_text(number, t),
        None => default_text(number, env),
    }
}

/// `"/proc/{pid}/cwd"`: the link that names the working directory of a
/// process.
pub open spec fn cwd_link_text(pid: nat) -> Seq<char> {
    seq!['/', 'p', 'r', 'o', 'c', '/'] + decimal(pid) + seq!['/', 'c', 'w', 'd']
}

fn digit_str(d: usize) -> (r: &'static str)
    requires
        d < 10,
    ensures
        r@ == seq![digit_char(d as nat)],
{
    proof {
        reveal_strlit("0");
        reveal_strlit("1");
        reveal_strlit("2");
        reveal_strlit("3");
        reveal_strlit("4");
        reveal_strlit("5");
        reveal_strlit("6");
        reveal_strlit("7");
        reveal_strlit("8");
        reveal_strlit("9");
    }
    let r = if d == 0 {
        "0"
    } else if d == 1 {
        "1"
    } else if d == 2 {
        "2"
    } else if d == 3 {
        "3"
    } else if d == 4 {
        "4"
    } else if d == 5 {
        "5"
    } else if d == 6 {
        "6"
    } else if d == 7 {
        "7"
    } else if d == 8 {
        "8"
    } else {
        "9"
    };
    assert(r@ =~= seq![digit_char(d as nat)]);
    r
}

/// Writes `n` in decimal.
pub fn decimal_string(n: usize) -> (r: String)
    ensures
        r@ == decimal(n as nat),
    decreases n,
{
    if n < 10 {
        String::from_str(digit_str(n))
    } else {
        let mut s = decimal_string(n / 10);
        s.append(digit_str(n % 10));
        assert(s@ =~= decimal(n as nat));
        s
    }
}

/// The label of a tab whose session has reported the title `title`.
pub fn format_titled(position: usize, title: &str) -> (r: String)
    ensures
        r@ == titled_text(position as nat, title@),
{
    let mut s = decimal_string(position);
    proof {
        reveal_strlit(". ");
    }
    assert(". "@ =~= seq!['.', ' ']);
    s.append(". ");
    s.append(title);
    s
}

/// The label of a tab whose session has reported no title yet.
pub fn format_default(position: usize, env: &Env) -> (r: String)
    ensures
        r@ == default_text(position as nat, *env),
{
    let mut s = decimal_string(position);
    proof {
        reveal_strlit(". ");
        reveal_strlit("@");
        reveal_strlit(":");
    }
    assert(". "@ =~= seq!['.', ' ']);
    assert("@"@ =~= seq!['@']);
    assert(":"@ =~= seq![':']);
    s.append(". ");
    s.append(env.user.as_str());
    s.append("@");
    s.append(env.host.as_str());
    s.append(":");
    s.append(env.cur_dir.as_str());
    assert(s@ =~= default_text(position as nat, *env));
    s
}

/// The label of a tab, by its title where it has one.
pub fn page_label(page_number: usize, title: Option<&str>, env: &Env) -> (r: String)
    ensures
        r@ == label_text(
            page_number as nat,
            match title {
                Some(t) => Some(t@),
                None => None,
            },
            *env,
        ),
{
    match title {
        Some(t) => format_titled(page_number, t),
        None => format_default(page_number, env),
    }
}

/// The path of the link that names the working directory of process `pid`.
pub fn cwd_link(pid: u32) -> (r: String)
    ensures
        r@ == cwd_link_text(pid as nat),
{
    let mut s = String::from_str("/proc/");
    proof {
        reveal_strlit("/proc/");
        reveal_strlit("/cwd");
    }
    assert("/proc/"@ =~= seq!['/', 'p', 'r', 'o', 'c', '/']);
    assert("/cwd"@ =~= seq!['/', 'c', 'w', 'd']);
    let digits = decimal_string(pid as usize);
    s.append(digits.as_str());
    s.append("/cwd");
    s
}

} // verus!
