//! Variables in path specifiers.

use vstd::prelude::*;
use vstd::string::*;

use crate::outside::{lossy_text, to_string_lossy};
use crate::text::{
    copy_range, decimal, digits_value, from_chars, law_decimal, law_slashed, same_as, slashed,
    strip_prefix, to_chars, to_decimal, with_slash,
};
use crate::user::PasswordInfo;

verus! {

/// What stands in place of the variable `name`: the name, the home directory,
/// the user number or the group number of the user. Any other variable stands
/// for itself.
pub open spec fn variable(pwd: PasswordInfo, name: Seq<char>) -> Seq<char> {
    if name == "USER"@ {
        lossy_text(pwd.name@)
    } else if name == "HOME"@ {
        lossy_text(pwd.dir@)
    } else if name == "USERUID"@ {
        decimal(pwd.uid as nat)
    } else if name == "USERGID"@ {
        decimal(pwd.gid as nat)
    } else {
        unknown_variable(name)
    }
}

/// A variable that is not known, spelled as it was.
pub open spec fn unknown_variable(name: Seq<char>) -> Seq<char> {
    seq!['%', '('] + name + seq![')']
}

/// The length of the variable name that `s` begins with: it ends before the
/// first closing bracket, or with the text.
pub open spec fn name_length(s: Seq<char>) -> nat
    decreases s.len(),
{
    if s.len() == 0 || s[0] == ')' {
        0
    } else {
        1 + name_length(s.drop_first())
    }
}

/// `s` with each variable, written `%(NAME)`, replaced by what it stands for.
pub open spec fn expanded(pwd: PasswordInfo, s: Seq<char>) -> Seq<char>
    decreases s.len(),
{
    if s.len() == 0 {
        Seq::empty()
    } else if s[0] == '%' && s.len() > 1 && s[1] == '(' {
        let rest = s.skip(2);
        let n = name_length(rest) as int;
        if n < rest.len() {
            variable(pwd, rest.take(n)) + expanded(pwd, rest.skip(n + 1))
        } else {
            variable(pwd, rest)
        }
    } else {
        seq![s[0]] + expanded(pwd, s.drop_first())
    }
}

/// `s` with a leading `~/` replaced by the home directory.
pub open spec fn at_home(pwd: PasswordInfo, s: Seq<char>) -> Seq<char> {
    match crate::text::after_prefix(s, "~/"@) {
        Some(rest) => slashed(lossy_text(pwd.dir@), rest),
        None => s,
    }
}

/// The path that the specifier `s` means for a user.
pub open spec fn specified(pwd: PasswordInfo, s: Seq<char>) -> Seq<char> {
    expanded(pwd, at_home(pwd, s))
}

/// A name ends within its text, and no closing bracket stands in it.
pub proof fn lemma_name_length(s: Seq<char>)
    ensures
        name_length(s) <= s.len(),
        name_length(s) < s.len() ==> s[name_length(s) as int] == ')',
        forall|i: int| 0 <= i < name_length(s) ==> s[i] != ')',
    decreases s.len(),
{
    if s.len() > 0 && s[0] != ')' {
        let rest = s.drop_first();
        lemma_name_length(rest);
        assert forall|i: int| 0 <= i < name_length(s) implies s[i] != ')' by {
            if i > 0 {
                assert(s[i] == rest[i - 1]);
            }
        }
    }
}

/// Expands a variable that occurred in a path specifier.
pub fn map_var(pwd: &PasswordInfo, name: &str) -> (r: String)
    ensures
        r@ == variable(*pwd, name@),
{
    let chars = to_chars(name);
    if same_as(&chars, "USER") {
        to_string_lossy(pwd.name.as_slice())
    } else if same_as(&chars, "HOME") {
        to_string_lossy(pwd.dir.as_slice())
    } else if same_as(&chars, "USERUID") {
        to_decimal(pwd.uid)
    } else if same_as(&chars, "USERGID") {
        to_decimal(pwd.gid)
    } else {
        let mut r: String = String::new();
        r.push('%');
        r.push('(');
        r.append(name);
        r.push(')');
        assert(r@ =~= unknown_variable(name@));
        r
    }
}

/// Expands all variables, and a leading `~/`, that occur in a path specifier.
pub fn expand_vars(pwd: &PasswordInfo, s: String) -> (r: String)
    ensures
        r@ == specified(*pwd, s@),
{
    let given = to_chars(s.as_str());
    let s: String = match strip_prefix(&given, "~/") {
        Some(rest) => {
            let home = to_string_lossy(pwd.dir.as_slice());
            with_slash(home.as_str(), rest.as_str())
        },
        None => s,
    };
    let chars = to_chars(s.as_str());
    let mut result: String = String::new();
    let mut i: usize = 0;
    assert(chars@.skip(0) == chars@);
    while i < chars.len()
        invariant
            i <= chars.len(),
            expanded(*pwd, chars@) == result@ + expanded(*pwd, chars@.skip(i as int)),
        decreases chars.len() - i,
    {
        let ghost here = chars@.skip(i as int);
        let ghost before = result@;
        let c = chars[i];
        if c == '%' && chars.len() - i > 1 && chars[i + 1] == '(' {
            let ghost rest = here.skip(2);
            let start: usize = i + 2;
            let mut end: usize = start;
            assert(rest == chars@.skip(start as int));
            proof {
                lemma_name_length(rest);
            }
            while end < chars.len() && chars[end] != ')'
                invariant
                    start <= end <= chars.len(),
                    start <= chars.len(),
                    name_length(chars@.skip(start as int)) == (end - start) + name_length(
                        chars@.skip(end as int),
                    ),
                decreases chars.len() - end,
            {
                assert(chars@.skip(end as int).drop_first() == chars@.skip(end + 1));
                end = end + 1;
            }
            let name_chars = copy_range(&chars, start, end);
            let name = from_chars(&name_chars);
            assert(name@ == rest.take(end - start));
            let value = map_var(pwd, name.as_str());
            result.append(value.as_str());
            if end < chars.len() {
                i = end + 1;
                assert(rest.skip(end - start + 1) == chars@.skip(i as int));
                assert(expanded(*pwd, here) == value@ + expanded(*pwd, chars@.skip(i as int)));
            } else {
                i = end;
                assert(rest.take(end - start) == rest);
                assert(chars@.skip(i as int) == Seq::<char>::empty());
                assert(expanded(*pwd, here) =~= value@ + expanded(*pwd, chars@.skip(i as int)));
            }
            assert(before + (value@ + expanded(*pwd, chars@.skip(i as int))) =~= result@
                + expanded(*pwd, chars@.skip(i as int)));
        } else {
            result.push(c);
            i = i + 1;
            assert(here.drop_first() == chars@.skip(i as int));
            assert(before + (seq![c] + expanded(*pwd, chars@.skip(i as int))) =~= result@
                + expanded(*pwd, chars@.skip(i as int)));
        }
    }
    assert(chars@.skip(i as int) == Seq::<char>::empty());
    assert(result@ =~= expanded(*pwd, chars@));
    result
}

/// A text in which no variable begins.
pub open spec fn has_no_variable(s: Seq<char>) -> bool {
    forall|i: int, j: int| 0 <= i && j == i + 1 && j < s.len() && s[i] == '%' ==> s[j] != '('
}

/// A variable in a text is replaced by what it stands for, and what stands
/// before and behind it makes no difference to that.
pub proof fn law_variable_is_replaced(
    pwd: PasswordInfo,
    before: Seq<char>,
    name: Seq<char>,
    after: Seq<char>,
)
    requires
        has_no_variable(before),
        !name.contains(')'),
    ensures
        expanded(pwd, before + unknown_variable(name) + after) == before + variable(pwd, name)
            + expanded(pwd, after),
    decreases before.len(),
{
    let s = before + unknown_variable(name) + after;
    if before.len() == 0 {
        let rest = s.skip(2);
        assert(rest =~= name + seq![')'] + after);
        lemma_name_length(rest);
        assert(rest[name.len() as int] == ')');
        let n = name_length(rest) as int;
        if n < name.len() {
            assert(name[n] == ')');
        }
        assert(rest.take(n) =~= name);
        assert(rest.skip(n + 1) =~= after);
        assert(before + variable(pwd, name) =~= variable(pwd, name));
    } else {
        let tail = before.drop_first();
        assert(has_no_variable(tail)) by {
            assert forall|i: int, j: int|
                0 <= i && j == i + 1 && j < tail.len() && tail[i] == '%' implies tail[j]
                != '(' by {
                assert(before[i + 1] == tail[i] && before[j + 1] == tail[j]);
            }
        }
        law_variable_is_replaced(pwd, tail, name, after);
        assert(s.drop_first() =~= tail + unknown_variable(name) + after);
        assert(s[0] == before[0]);
        if before.len() == 1 {
            assert(s[1] == '%');
        } else {
            assert(s[1] == before[1]);
        }
        assert(seq![before[0]] + (tail + variable(pwd, name) + expanded(pwd, after)) =~= before
            + variable(pwd, name) + expanded(pwd, after));
    }
}

/// A text in which no variable begins is left as it is.
pub proof fn law_expand_leaves_plain_text(pwd: PasswordInfo, s: Seq<char>)
    requires
        has_no_variable(s),
    ensures
        expanded(pwd, s) == s,
    decreases s.len(),
{
    if s.len() > 0 {
        let tail = s.drop_first();
        assert(has_no_variable(tail)) by {
            assert forall|i: int, j: int|
                0 <= i && j == i + 1 && j < tail.len() && tail[i] == '%' implies tail[j]
                != '(' by {
                assert(s[i + 1] == tail[i] && s[j + 1] == tail[j]);
            }
        }
        law_expand_leaves_plain_text(pwd, tail);
        assert(seq![s[0]] + tail =~= s);
    } else {
        assert(s =~= Seq::empty());
    }
}

/// Where an unknown variable occurs, it stays as it is.
pub proof fn law_unknown_variable_stays(
    pwd: PasswordInfo,
    before: Seq<char>,
    name: Seq<char>,
    after: Seq<char>,
)
    requires
        has_no_variable(before),
        !name.contains(')'),
        name != "USER"@,
        name != "HOME"@,
        name != "USERUID"@,
        name != "USERGID"@,
    ensures
        expanded(pwd, before + unknown_variable(name) + after) == before + unknown_variable(name)
            + expanded(pwd, after),
{
    law_variable_is_replaced(pwd, before, name, after);
}

/// A specifier that begins with `~/` means a path in the home directory, and
/// one that does not is read from its first character on.
pub proof fn law_tilde_means_home(pwd: PasswordInfo, rest: Seq<char>)
    ensures
        specified(pwd, "~/"@ + rest) == expanded(pwd, slashed(lossy_text(pwd.dir@), rest)),
        !"~/"@.is_prefix_of(rest) ==> specified(pwd, rest) == expanded(pwd, rest),
{
    let s = "~/"@ + rest;
    assert(s.subrange(0, "~/"@.len() as int) =~= "~/"@);
    assert(s.skip("~/"@.len() as int) =~= rest);
}

/// What each variable stands for, wherever it occurs: `%(USER)` for the whole
/// name of the user, `%(HOME)` for the whole home directory, `%(USERUID)` and
/// `%(USERGID)` for the numbers of the user and of the group, which read back as
/// these numbers.
pub proof fn law_known_variables(pwd: PasswordInfo, before: Seq<char>, after: Seq<char>)
    requires
        forall|i: int, j: int|
            0 <= i && j == i + 1 && j < before.len() && #[trigger] before[i] == '%'
                ==> #[trigger] before[j] != '(',
    ensures
        expanded(pwd, before + "%(USER)"@ + after) == before + lossy_text(pwd.name@) + expanded(
            pwd,
            after,
        ),
        expanded(pwd, before + "%(HOME)"@ + after) == before + lossy_text(pwd.dir@) + expanded(
            pwd,
            after,
        ),
        expanded(pwd, before + "%(USERUID)"@ + after) == before + decimal(pwd.uid as nat)
            + expanded(pwd, after),
        expanded(pwd, before + "%(USERGID)"@ + after) == before + decimal(pwd.gid as nat)
            + expanded(pwd, after),
        digits_value(decimal(pwd.uid as nat)) == pwd.uid,
        digits_value(decimal(pwd.gid as nat)) == pwd.gid,
{
    assert(has_no_variable(before));
    lemma_variable_names();
    law_variable_is_replaced(pwd, before, "USER"@, after);
    law_variable_is_replaced(pwd, before, "HOME"@, after);
    law_variable_is_replaced(pwd, before, "USERUID"@, after);
    law_variable_is_replaced(pwd, before, "USERGID"@, after);
    law_decimal(pwd.uid as nat);
    law_decimal(pwd.gid as nat);
}

/// How the variables are spelled, and that they differ.
proof fn lemma_variable_names()
    ensures
        "%(USER)"@ == unknown_variable("USER"@),
        "%(HOME)"@ == unknown_variable("HOME"@),
        "%(USERUID)"@ == unknown_variable("USERUID"@),
        "%(USERGID)"@ == unknown_variable("USERGID"@),
        !"USER"@.contains(')') && !"HOME"@.contains(')'),
        !"USERUID"@.contains(')') && !"USERGID"@.contains(')'),
        "USER"@ != "HOME"@ && "USER"@ != "USERUID"@ && "USER"@ != "USERGID"@,
        "HOME"@ != "USERUID"@ && "HOME"@ != "USERGID"@ && "USERUID"@ != "USERGID"@,
{
    reveal_strlit("USER");
    reveal_strlit("HOME");
    reveal_strlit("USERUID");
    reveal_strlit("USERGID");
    reveal_strlit("%(USER)");
    reveal_strlit("%(HOME)");
    reveal_strlit("%(USERUID)");
    reveal_strlit("%(USERGID)");
    assert("%(USER)"@ =~= unknown_variable("USER"@));
    assert("%(HOME)"@ =~= unknown_variable("HOME"@));
    assert("%(USERUID)"@ =~= unknown_variable("USERUID"@));
    assert("%(USERGID)"@ =~= unknown_variable("USERGID"@));
    assert("USER"@[0] == 'U' && "HOME"@[0] == 'H');
    assert("USERUID"@[0] == 'U' && "USERGID"@[0] == 'U');
    assert("USERUID"@[4] == 'U' && "USERGID"@[4] == 'G');
}

/// Any other variable is left as it is spelled. A variable whose bracket is not
/// closed reaches to the end of the text, and counts as if it were closed there.
pub proof fn law_other_variables(
    pwd: PasswordInfo,
    before: Seq<char>,
    name: Seq<char>,
    after: Seq<char>,
)
    requires
        forall|i: int, j: int|
            0 <= i && j == i + 1 && j < before.len() && #[trigger] before[i] == '%'
                ==> #[trigger] before[j] != '(',
        !name.contains(')'),
    ensures
        name != "USER"@ && name != "HOME"@ && name != "USERUID"@ && name != "USERGID"@ ==> expanded(
            pwd,
            before + "%("@ + name + ")"@ + after,
        ) == before + "%("@ + name + ")"@ + expanded(pwd, after),
        expanded(pwd, before + "%("@ + name) == expanded(pwd, before + "%("@ + name + ")"@),
        expanded(pwd, before) == before,
        expanded(pwd, Seq::empty()) == Seq::<char>::empty(),
{
    reveal_strlit("%(");
    reveal_strlit(")");
    assert(has_no_variable(before));
    let spelled = unknown_variable(name);
    assert(before + "%("@ + name + ")"@ + after =~= before + spelled + after);
    law_variable_is_replaced(pwd, before, name, after);
    assert(before + spelled + expanded(pwd, after) =~= before + "%("@ + name + ")"@ + expanded(
        pwd,
        after,
    ));
    law_expand_leaves_plain_text(pwd, before);
    let empty = Seq::<char>::empty();
    law_variable_is_replaced(pwd, before, name, empty);
    assert(before + spelled + empty =~= before + "%("@ + name + ")"@);
    lemma_open_variable(pwd, before, name);
    assert(before + variable(pwd, name) + expanded(pwd, empty) =~= before + variable(pwd, name));
}

proof fn lemma_open_variable(pwd: PasswordInfo, before: Seq<char>, name: Seq<char>)
    requires
        has_no_variable(before),
        !name.contains(')'),
    ensures
        expanded(pwd, before + "%("@ + name) == before + variable(pwd, name),
    decreases before.len(),
{
    reveal_strlit("%(");
    let s = before + "%("@ + name;
    if before.len() == 0 {
        let rest = s.skip(2);
        assert(rest =~= name);
        lemma_name_length(rest);
        let n = name_length(rest) as int;
        if n < rest.len() {
            assert(name[n] == ')');
        }
        assert(before + variable(pwd, name) =~= variable(pwd, name));
    } else {
        let tail = before.drop_first();
        assert(has_no_variable(tail)) by {
            assert forall|i: int, j: int|
                0 <= i && j == i + 1 && j < tail.len() && tail[i] == '%' implies tail[j]
                != '(' by {
                assert(before[i + 1] == tail[i] && before[j + 1] == tail[j]);
            }
        }
        lemma_open_variable(pwd, tail, name);
        assert(s.drop_first() =~= tail + "%("@ + name);
        assert(s[0] == before[0]);
        if before.len() == 1 {
            assert(s[1] == '%');
        } else {
            assert(s[1] == before[1]);
        }
        assert(seq![before[0]] + (tail + variable(pwd, name)) =~= before + variable(pwd, name));
    }
}

/// A specifier that begins with `~/` means what it does with the whole home
/// directory and a slash in place of that, and any other one is only expanded.
pub proof fn law_home_in_front(pwd: PasswordInfo, rest: Seq<char>, other: Seq<char>)
    requires
        !(other.len() >= 2 && other[0] == '~' && other[1] == '/'),
    ensures
        specified(pwd, "~/"@ + rest) == expanded(pwd, lossy_text(pwd.dir@) + "/"@ + rest),
        specified(pwd, other) == expanded(pwd, other),
{
    reveal_strlit("~/");
    law_tilde_means_home(pwd, rest);
    law_slashed(lossy_text(pwd.dir@), rest);
    if "~/"@.is_prefix_of(other) {
        assert("~/"@[0] == other.subrange(0, 2)[0]);
        assert("~/"@[1] == other.subrange(0, 2)[1]);
    }
    law_tilde_means_home(pwd, other);
}

} // verus!
