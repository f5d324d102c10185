//! Where things are: module arguments, the configuration file of a user, and
//! the paths that follow from them.

use vstd::prelude::*;
use vstd::string::*;
use vstd::utf8::{decode_utf8, valid_utf8};

use crate::expand::{expand_vars, specified};
use crate::outside::{from_utf8, lossy_text, to_string_lossy};
use crate::text::{
    after_prefix, cstr, from_chars, law_slashed, law_split, lemma_until_nul_whole, opt_str,
    opt_text, same_as, slashed, split, split_at_byte, strings, strip_prefix, texts, to_chars, trim, trimmed, until_nul,
    with_slash,
};
use crate::user::PasswordInfo;

verus! {

/// The value of the last of the `lines` that begins with `key`.
pub open spec fn last_setting(lines: Seq<Seq<char>>, key: Seq<char>) -> Option<Seq<char>>
    decreases lines.len(),
{
    if lines.len() == 0 {
        None
    } else {
        match after_prefix(lines.last(), key) {
            Some(value) => Some(value),
            None => last_setting(lines.drop_last(), key),
        }
    }
}

/// The arguments of the module as text, without those that are missing.
pub open spec fn argument_texts(args: Seq<Option<Vec<u8>>>) -> Seq<Seq<char>>
    decreases args.len(),
{
    if args.len() == 0 {
        Seq::empty()
    } else {
        let before = argument_texts(args.drop_last());
        match args.last() {
            Some(arg) => before.push(lossy_text(arg@)),
            None => before,
        }
    }
}

/// Reads the module arguments: the cipher directory and the mount point, as
/// far as they are given. Of several the last one counts.
pub fn parse_pam_args(args: &Vec<Option<Vec<u8>>>) -> (r: (Option<String>, Option<String>))
    ensures
        opt_text(r.0) == last_setting(argument_texts(args@), "cipherdir="@),
        opt_text(r.1) == last_setting(argument_texts(args@), "mountpoint="@),
{
    let mut cipherdir: Option<String> = None;
    let mut mountpoint: Option<String> = None;
    for i in 0..args.len()
        invariant
            opt_text(cipherdir) == last_setting(
                argument_texts(args@.take(i as int)),
                "cipherdir="@,
            ),
            opt_text(mountpoint) == last_setting(
                argument_texts(args@.take(i as int)),
                "mountpoint="@,
            ),
    {
        assert(args@.take(i + 1).drop_last() == args@.take(i as int));
        if let Some(arg) = &args[i] {
            let text = to_string_lossy(arg.as_slice());
            let chars = to_chars(text.as_str());
            proof {
                let before = argument_texts(args@.take(i as int));
                assert(before.push(text@).drop_last() =~= before);
                lemma_keys_differ(text@);
            }
            if let Some(rest) = strip_prefix(&chars, "cipherdir=") {
                cipherdir = Some(rest);
            } else if let Some(rest) = strip_prefix(&chars, "mountpoint=") {
                mountpoint = Some(rest);
            }
        }
    }
    assert(args@.take(args@.len() as int) == args@);
    (cipherdir, mountpoint)
}

/// No line sets both paths.
proof fn lemma_keys_differ(line: Seq<char>)
    ensures
        after_prefix(line, "cipherdir="@) is None || after_prefix(line, "mountpoint="@) is None,
{
    reveal_strlit("cipherdir=");
    reveal_strlit("mountpoint=");
    if "cipherdir="@.is_prefix_of(line) && "mountpoint="@.is_prefix_of(line) {
        assert("cipherdir="@[0] == line.subrange(0, "cipherdir="@.len() as int)[0]);
        assert("mountpoint="@[0] == line.subrange(0, "mountpoint="@.len() as int)[0]);
    }
}

/// The lines up to the first one that is not well-formed UTF-8, as text
/// without white space around it.
pub open spec fn readable(lines: Seq<Seq<u8>>) -> Seq<Seq<char>>
    decreases lines.len(),
{
    if lines.len() == 0 || !valid_utf8(lines[0]) {
        Seq::empty()
    } else {
        seq![trimmed(decode_utf8(lines[0]))] + readable(lines.drop_first())
    }
}

/// The lines of a file, none where there is no file.
pub open spec fn file_lines(contents: Option<Seq<u8>>) -> Seq<Seq<char>> {
    match contents {
        Some(bytes) => readable(split(bytes, 0x0au8)),
        None => Seq::empty(),
    }
}

/// The bytes of an optional file.
pub open spec fn opt_bytes(contents: Option<&Vec<u8>>) -> Option<Seq<u8>> {
    match contents {
        Some(bytes) => Some(bytes@),
        None => None,
    }
}

/// A line that is a flag for gocryptfs: one that begins with a dash, and that a
/// C string can carry.
pub open spec fn is_flag(line: Seq<char>) -> bool {
    &&& line.len() > 0 && line[0] == '-'
    &&& !line.contains('\0')
}

/// A flag of the options file that is passed on to gocryptfs. Those that would
/// keep it in the foreground are not.
pub open spec fn is_option(line: Seq<char>) -> bool {
    &&& is_flag(line)
    &&& line != "-f"@
    &&& line != "-fg"@
}

/// The flags among the lines, in order.
pub open spec fn flags_of(lines: Seq<Seq<char>>) -> Seq<Seq<char>> {
    lines.filter(|line: Seq<char>| is_flag(line))
}

/// The flags among the lines that are passed on from the options file, in order.
pub open spec fn options_of(lines: Seq<Seq<char>>) -> Seq<Seq<char>> {
    lines.filter(|line: Seq<char>| is_option(line))
}

/// The lines of a file.
fn read_lines(contents: Option<&Vec<u8>>) -> (lines: Vec<Vec<char>>)
    ensures
        texts(lines@) == file_lines(opt_bytes(contents)),
{
    let mut lines: Vec<Vec<char>> = Vec::new();
    let bytes: &Vec<u8> = match contents {
        Some(bytes) => bytes,
        None => {
            assert(texts(lines@) =~= Seq::empty());
            return lines;
        },
    };
    let raw = split_at_byte(bytes, 0x0a);
    let ghost all = texts(raw@);
    assert(all.skip(0) =~= all);
    for i in 0..raw.len()
        invariant
            all == texts(raw@),
            all == split(bytes@, 0x0au8),
            opt_bytes(contents) == Some(bytes@),
            readable(all) == texts(lines@) + readable(all.skip(i as int)),
    {
        let ghost rest = all.skip(i as int);
        let ghost before = texts(lines@);
        assert(rest[0] == raw@[i as int]@);
        match from_utf8(raw[i].as_slice()) {
            Some(text) => {
                let chars = to_chars(text);
                let line = trim(&chars);
                lines.push(line);
                assert(rest.drop_first() =~= all.skip(i + 1));
                assert(texts(lines@) =~= before.push(line@));
                assert(before + (seq![line@] + readable(all.skip(i + 1))) =~= texts(lines@)
                    + readable(all.skip(i + 1)));
            },
            None => {
                assert(readable(all) =~= texts(lines@));
                return lines;
            },
        }
    }
    assert(all.skip(raw@.len() as int) =~= Seq::empty());
    assert(readable(all) =~= texts(lines@));
    lines
}

/// Whether a line is a flag.
fn has_flag(line: &Vec<char>) -> (r: bool)
    ensures
        r == is_flag(line@),
{
    line.len() > 0 && line[0] == '-' && !has_nul(line)
}

/// Adds the flags among the lines to `options`, without those that keep
/// gocryptfs in the foreground where `background` asks for that.
fn push_flags(lines: &Vec<Vec<char>>, background: bool, options: &mut Vec<String>)
    ensures
        strings(final(options)@) == strings(old(options)@) + (if background {
            options_of(texts(lines@))
        } else {
            flags_of(texts(lines@))
        }),
{
    let ghost all = texts(lines@);
    let ghost keep = if background {
        |line: Seq<char>| is_option(line)
    } else {
        |line: Seq<char>| is_flag(line)
    };
    let ghost start = strings(options@);
    proof {
        reveal(Seq::filter);
        assert(strings(options@) =~= start + all.take(0).filter(keep));
    }
    for i in 0..lines.len()
        invariant
            all == texts(lines@),
            keep == (if background {
                |line: Seq<char>| is_option(line)
            } else {
                |line: Seq<char>| is_flag(line)
            }),
            strings(options@) == start + all.take(i as int).filter(keep),
    {
        let line = &lines[i];
        assert(line@ == all[i as int]);
        assert(all.take(i + 1) =~= all.take(i as int).push(line@));
        proof {
            all.take(i as int).lemma_filter_push(line@, keep);
        }
        if has_flag(line) && !(background && (same_as(line, "-f") || same_as(line, "-fg"))) {
            let ghost before = strings(options@);
            let option = from_chars(line);
            options.push(option);
            assert(strings(options@) =~= before.push(line@));
        }
        assert(strings(options@) =~= start + all.take(i + 1).filter(keep));
    }
    assert(all.take(all.len() as int) =~= all);
}

/// Whether a text holds a null character.
fn has_nul(s: &Vec<char>) -> (r: bool)
    ensures
        r == s@.contains('\0'),
{
    for i in 0..s.len()
        invariant
            forall|j: int| 0 <= j < i ==> s@[j] != '\0',
    {
        if s[i] == '\0' {
            assert(s@[i as int] == '\0');
            return true;
        }
    }
    false
}

/// Adds the mount options of a file, one per line, to `options`.
pub fn read_mount_options(contents: Option<&Vec<u8>>, options: &mut Vec<String>)
    ensures
        strings(final(options)@) == strings(old(options)@) + options_of(
            file_lines(opt_bytes(contents)),
        ),
{
    let lines = read_lines(contents);
    push_flags(&lines, true, options);
}

/// What a user has configured.
#[derive(Debug)]
pub struct UserConfig {
    pub cipherdir: Option<String>,
    pub mountpoint: Option<String>,
    pub options: Vec<String>,
}

/// Reads the configuration file of a user: lines that set a path, and flags for
/// gocryptfs, which are passed on as they are. Of several lines that set one path
/// the last one counts.
pub fn read_config(contents: Option<&Vec<u8>>) -> (r: UserConfig)
    ensures
        opt_text(r.cipherdir) == last_setting(file_lines(opt_bytes(contents)), "cipherdir="@),
        opt_text(r.mountpoint) == last_setting(file_lines(opt_bytes(contents)), "mountpoint="@),
        strings(r.options@) == flags_of(file_lines(opt_bytes(contents))),
{
    let lines = read_lines(contents);
    let ghost all = texts(lines@);
    let mut cipherdir: Option<String> = None;
    let mut mountpoint: Option<String> = None;
    for i in 0..lines.len()
        invariant
            all == texts(lines@),
            opt_text(cipherdir) == last_setting(all.take(i as int), "cipherdir="@),
            opt_text(mountpoint) == last_setting(all.take(i as int), "mountpoint="@),
    {
        assert(all.take(i + 1).drop_last() =~= all.take(i as int));
        assert(lines@[i as int]@ == all[i as int]);
        proof {
            lemma_keys_differ(all[i as int]);
        }
        if let Some(rest) = strip_prefix(&lines[i], "cipherdir=") {
            cipherdir = Some(rest);
        } else if let Some(rest) = strip_prefix(&lines[i], "mountpoint=") {
            mountpoint = Some(rest);
        }
    }
    assert(all.take(all.len() as int) =~= all);
    let mut options: Vec<String> = Vec::new();
    push_flags(&lines, false, &mut options);
    assert(strings(options@) =~= flags_of(all));
    UserConfig { cipherdir, mountpoint, options }
}

/// The file `file` in the directory `dir`.
pub open spec fn path_in(dir: Seq<char>, file: Seq<char>) -> Seq<char> {
    until_nul(slashed(dir, file))
}

/// The file `file` in the directory `dir`.
pub fn file_in(dir: &str, file: &str) -> (r: String)
    ensures
        r@ == path_in(dir@, file@),
{
    let whole = with_slash(dir, file);
    cstr(whole.as_str())
}

/// The directory that holds the cipher directory and the toggles: what was
/// specified, or `.gocryptfs` in the home directory.
pub open spec fn config_directory(pwd: PasswordInfo, cipher: Option<Seq<char>>) -> Seq<char> {
    match cipher {
        Some(specifier) => specified(pwd, specifier),
        None => slashed(lossy_text(pwd.dir@), ".gocryptfs"@),
    }
}

/// The mount point: what was specified, or `Private` in the home directory.
pub open spec fn mount_directory(pwd: PasswordInfo, mount: Option<Seq<char>>) -> Seq<char> {
    match mount {
        Some(specifier) => specified(pwd, specifier),
        None => slashed(lossy_text(pwd.dir@), "Private"@),
    }
}

/// The cipher directory, the mount point and the directory of the toggles, in
/// this order.
pub fn build_default_paths(
    pwd: &PasswordInfo,
    cipher_arg: Option<&str>,
    mount_arg: Option<&str>,
) -> (r: (String, String, String))
    ensures
        r.0@ == path_in(config_directory(*pwd, opt_str(cipher_arg)), "gocryptfs"@),
        r.1@ == until_nul(mount_directory(*pwd, opt_str(mount_arg))),
        r.2@ == until_nul(config_directory(*pwd, opt_str(cipher_arg))),
{
    let home = to_string_lossy(pwd.dir.as_slice());
    let config_dir: String = match cipher_arg {
        Some(specifier) => expand_vars(pwd, specifier.to_owned()),
        None => with_slash(home.as_str(), ".gocryptfs"),
    };
    let mountpoint: String = match mount_arg {
        Some(specifier) => expand_vars(pwd, specifier.to_owned()),
        None => with_slash(home.as_str(), "Private"),
    };
    (
        file_in(config_dir.as_str(), "gocryptfs"),
        cstr(mountpoint.as_str()),
        cstr(config_dir.as_str()),
    )
}

/// Where the configuration file of a user is.
pub open spec fn config_file(pwd: PasswordInfo) -> Seq<char> {
    path_in(slashed(lossy_text(pwd.dir@), ".gocryptfs"@), "config"@)
}

/// Where the configuration file of a user is.
pub fn user_config_path(pwd: &PasswordInfo) -> (r: String)
    ensures
        r@ == config_file(*pwd),
{
    let home = to_string_lossy(pwd.dir.as_slice());
    let dir = with_slash(home.as_str(), ".gocryptfs");
    file_in(dir.as_str(), "config")
}

/// Of two settings the first that is there.
pub open spec fn first_set(a: Option<Seq<char>>, b: Option<Seq<char>>) -> Option<Seq<char>> {
    match a {
        Some(_) => a,
        None => b,
    }
}

/// The paths that the module works with for a user.
#[derive(Debug)]
pub struct Paths {
    pub cipher_dir: String,
    pub mountpoint: String,
    pub config_dir: String,
}

impl Paths {
    /// These are the paths for a user with such settings of the cipher
    /// directory and the mount point.
    pub open spec fn follow(
        self,
        pwd: PasswordInfo,
        cipher: Option<Seq<char>>,
        mount: Option<Seq<char>>,
    ) -> bool {
        &&& self.cipher_dir@ == path_in(config_directory(pwd, cipher), "gocryptfs"@)
        &&& self.mountpoint@ == until_nul(mount_directory(pwd, mount))
        &&& self.config_dir@ == until_nul(config_directory(pwd, cipher))
    }
}

/// An optional string as a slice.
fn as_deref(t: &Option<String>) -> (r: Option<&str>)
    ensures
        opt_str(r) == opt_text(*t),
{
    match t {
        Some(text) => Some(text.as_str()),
        None => None,
    }
}

/// The paths for a user, each from the first that sets it: the configuration
/// file of the user, the module arguments, the defaults.
pub fn user_paths(
    pwd: &PasswordInfo,
    config: &UserConfig,
    args: &(Option<String>, Option<String>),
) -> (r: Paths)
    ensures
        r.follow(
            *pwd,
            first_set(opt_text(config.cipherdir), opt_text(args.0)),
            first_set(opt_text(config.mountpoint), opt_text(args.1)),
        ),
{
    let cipher: Option<&str> = if config.cipherdir.is_some() {
        as_deref(&config.cipherdir)
    } else {
        as_deref(&args.0)
    };
    let mount: Option<&str> = if config.mountpoint.is_some() {
        as_deref(&config.mountpoint)
    } else {
        as_deref(&args.1)
    };
    let (cipher_dir, mountpoint, config_dir) = build_default_paths(pwd, cipher, mount);
    Paths { cipher_dir, mountpoint, config_dir }
}

/// The configuration file takes precedence over the module arguments, and
/// these over the defaults, for the cipher directory and the mount point alike.
pub proof fn law_precedence(
    pwd: PasswordInfo,
    config: Option<Seq<char>>,
    argument: Option<Seq<char>>,
)
    ensures
        config is Some ==> config_directory(pwd, first_set(config, argument)) == specified(
            pwd,
            config->0,
        ) && mount_directory(pwd, first_set(config, argument)) == specified(pwd, config->0),
        config is None && argument is Some ==> config_directory(pwd, first_set(config, argument))
            == specified(pwd, argument->0) && mount_directory(pwd, first_set(config, argument))
            == specified(pwd, argument->0),
        config is None && argument is None ==> config_directory(pwd, first_set(config, argument))
            == slashed(lossy_text(pwd.dir@), ".gocryptfs"@) && mount_directory(
            pwd,
            first_set(config, argument),
        ) == slashed(lossy_text(pwd.dir@), "Private"@),
{
}

/// Of several lines or arguments that set the same thing the last one counts.
pub proof fn law_last_setting_counts(
    earlier: Seq<Seq<char>>,
    key: Seq<char>,
    value: Seq<char>,
    later: Seq<Seq<char>>,
)
    requires
        forall|i: int| 0 <= i < later.len() ==> !key.is_prefix_of(#[trigger] later[i]),
    ensures
        last_setting(earlier.push(key + value) + later, key) == Some(value),
    decreases later.len(),
{
    let all = earlier.push(key + value) + later;
    if later.len() == 0 {
        assert(all.last() == key + value);
        assert((key + value).subrange(0, key.len() as int) =~= key);
        assert((key + value).skip(key.len() as int) =~= value);
    } else {
        assert(all.last() == later[later.len() - 1]);
        assert(all.drop_last() =~= earlier.push(key + value) + later.drop_last());
        assert forall|i: int| 0 <= i < later.len() - 1 implies !key.is_prefix_of(
            #[trigger] later.drop_last()[i],
        ) by {
            assert(later.drop_last()[i] == later[i]);
        }
        law_last_setting_counts(earlier, key, value, later.drop_last());
    }
}

/// A comment: a line that begins with a number sign.
pub open spec fn is_comment(line: Seq<char>) -> bool {
    line.len() > 0 && line[0] == '#'
}

/// Comments set nothing and pass nothing on: without them a configuration file
/// says the same.
pub proof fn law_comments_say_nothing(lines: Seq<Seq<char>>)
    ensures
        ({
            let rest = lines.filter(|line: Seq<char>| !is_comment(line));
            &&& last_setting(rest, "cipherdir="@) == last_setting(lines, "cipherdir="@)
            &&& last_setting(rest, "mountpoint="@) == last_setting(lines, "mountpoint="@)
            &&& flags_of(rest) == flags_of(lines)
        }),
    decreases lines.len(),
{
    let keep = |line: Seq<char>| !is_comment(line);
    let option = |line: Seq<char>| is_flag(line);
    reveal(Seq::filter);
    if lines.len() > 0 {
        let front = lines.drop_last();
        let line = lines.last();
        law_comments_say_nothing(front);
        assert(front.push(line) =~= lines);
        front.lemma_filter_push(line, keep);
        front.lemma_filter_push(line, option);
        front.filter(keep).lemma_filter_push(line, option);
        assert(front.filter(keep).push(line).drop_last() =~= front.filter(keep));
        if is_comment(line) {
            reveal_strlit("cipherdir=");
            reveal_strlit("mountpoint=");
            assert(line.subrange(0, 1)[0] == line[0]);
            if "cipherdir="@.is_prefix_of(line) {
                assert("cipherdir="@[0] == line.subrange(0, "cipherdir="@.len() as int)[0]);
            }
            if "mountpoint="@.is_prefix_of(line) {
                assert("mountpoint="@[0] == line.subrange(0, "mountpoint="@.len() as int)[0]);
            }
        }
    }
}

/// Of a configuration file all flags are passed on to gocryptfs, and nothing
/// else.
pub proof fn law_flags(lines: Seq<Seq<char>>)
    ensures
        forall|line: Seq<char>| #[trigger]
            flags_of(lines).contains(line) <==> lines.contains(line) && is_flag(line),
        forall|i: int|
            0 <= i < flags_of(lines).len() ==> until_nul(#[trigger] flags_of(lines)[i])
                == flags_of(lines)[i],
{
    let keep = |line: Seq<char>| is_flag(line);
    lemma_filtered(lines, keep);
    assert forall|i: int| 0 <= i < flags_of(lines).len() implies until_nul(
        #[trigger] flags_of(lines)[i],
    ) == flags_of(lines)[i] by {
        lines.lemma_filter_pred(keep, i);
        lemma_until_nul_whole(flags_of(lines)[i]);
    }
}

/// Of an options file all flags are passed on to gocryptfs but those that would
/// keep it in the foreground, and nothing else.
pub proof fn law_options(lines: Seq<Seq<char>>)
    ensures
        forall|line: Seq<char>| #[trigger]
            options_of(lines).contains(line) <==> lines.contains(line) && is_flag(line) && line
                != "-f"@ && line != "-fg"@,
        forall|i: int|
            0 <= i < options_of(lines).len() ==> until_nul(#[trigger] options_of(lines)[i])
                == options_of(lines)[i],
{
    let keep = |line: Seq<char>| is_option(line);
    lemma_filtered(lines, keep);
    assert forall|i: int| 0 <= i < options_of(lines).len() implies until_nul(
        #[trigger] options_of(lines)[i],
    ) == options_of(lines)[i] by {
        lines.lemma_filter_pred(keep, i);
        lemma_until_nul_whole(options_of(lines)[i]);
    }
}

/// What a filter lets through are those items that it accepts.
proof fn lemma_filtered(lines: Seq<Seq<char>>, keep: spec_fn(Seq<char>) -> bool)
    ensures
        forall|line: Seq<char>| #[trigger]
            lines.filter(keep).contains(line) <==> lines.contains(line) && keep(line),
{
    assert forall|line: Seq<char>| #[trigger]
        lines.filter(keep).contains(line) <==> lines.contains(line) && keep(line) by {
        if lines.filter(keep).contains(line) {
            let i = choose|i: int|
                0 <= i < lines.filter(keep).len() && lines.filter(keep)[i] == line;
            lines.lemma_filter_pred(keep, i);
            lines.lemma_filter_contains_rev(keep, line);
        }
        if lines.contains(line) && keep(line) {
            let i = choose|i: int| 0 <= i < lines.len() && lines[i] == line;
            lines.lemma_filter_contains(keep, i);
        }
    }
}

/// What stands where unless a setting says otherwise: the cipher directory, the
/// toggles and the configuration file in `.gocryptfs`, and the mount point
/// `Private`, all in the home directory.
pub proof fn law_default_paths(pwd: PasswordInfo)
    requires
        !lossy_text(pwd.dir@).contains('\0'),
    ensures
        ({
            let home = lossy_text(pwd.dir@);
            let toggles = until_nul(config_directory(pwd, None));
            &&& path_in(config_directory(pwd, None), "gocryptfs"@) == home
                + "/.gocryptfs/gocryptfs"@
            &&& until_nul(mount_directory(pwd, None)) == home + "/Private"@
            &&& toggles == home + "/.gocryptfs"@
            &&& path_in(toggles, "auto-mount"@) == home + "/.gocryptfs/auto-mount"@
            &&& path_in(toggles, "auto-umount"@) == home + "/.gocryptfs/auto-umount"@
            &&& config_file(pwd) == home + "/.gocryptfs/config"@
        }),
{
    reveal_strlit(".gocryptfs");
    reveal_strlit("/.gocryptfs");
    reveal_strlit("Private");
    reveal_strlit("/Private");
    reveal_strlit("gocryptfs");
    reveal_strlit("/.gocryptfs/gocryptfs");
    reveal_strlit("auto-mount");
    reveal_strlit("/.gocryptfs/auto-mount");
    reveal_strlit("auto-umount");
    reveal_strlit("/.gocryptfs/auto-umount");
    reveal_strlit("config");
    reveal_strlit("/.gocryptfs/config");
    let home = lossy_text(pwd.dir@);
    let dir = slashed(home, ".gocryptfs"@);
    assert(dir =~= home + "/.gocryptfs"@);
    assert(slashed(home, "Private"@) =~= home + "/Private"@);
    assert(slashed(dir, "gocryptfs"@) =~= home + "/.gocryptfs/gocryptfs"@);
    assert(slashed(dir, "auto-mount"@) =~= home + "/.gocryptfs/auto-mount"@);
    assert(slashed(dir, "auto-umount"@) =~= home + "/.gocryptfs/auto-umount"@);
    assert(slashed(dir, "config"@) =~= home + "/.gocryptfs/config"@);
    lemma_slashed_no_nul(home, ".gocryptfs"@);
    lemma_slashed_no_nul(home, "Private"@);
    lemma_slashed_no_nul(dir, "gocryptfs"@);
    lemma_slashed_no_nul(dir, "auto-mount"@);
    lemma_slashed_no_nul(dir, "auto-umount"@);
    lemma_slashed_no_nul(dir, "config"@);
}

/// A path of parts without null characters is carried whole by a C string.
proof fn lemma_slashed_no_nul(a: Seq<char>, b: Seq<char>)
    requires
        !a.contains('\0'),
        !b.contains('\0'),
    ensures
        !slashed(a, b).contains('\0'),
        until_nul(slashed(a, b)) == slashed(a, b),
{
    let s = slashed(a, b);
    assert forall|i: int| 0 <= i < s.len() implies s[i] != '\0' by {
        if i < a.len() {
            assert(s[i] == a[i]);
        } else if i > a.len() {
            assert(s[i] == b[i - a.len() - 1]);
        }
    }
    lemma_until_nul_whole(s);
}

/// The arguments of the module are read in order, each as the text it holds, and
/// those that are missing are passed over.
pub proof fn law_argument_texts(
    before: Seq<Option<Vec<u8>>>,
    arg: Vec<u8>,
    after: Seq<Option<Vec<u8>>>,
)
    ensures
        argument_texts(Seq::empty()) == Seq::<Seq<char>>::empty(),
        argument_texts(before.push(Some(arg))) == argument_texts(before) + seq![
            lossy_text(arg@),
        ],
        argument_texts(before.push(None)) == argument_texts(before),
        argument_texts(before + after) == argument_texts(before) + argument_texts(after),
{
    assert(before.push(Some(arg)).drop_last() =~= before);
    assert(before.push(None).drop_last() =~= before);
    assert(argument_texts(before).push(lossy_text(arg@)) =~= argument_texts(before) + seq![
        lossy_text(arg@),
    ]);
    lemma_argument_texts_add(before, after);
}

proof fn lemma_argument_texts_add(before: Seq<Option<Vec<u8>>>, after: Seq<Option<Vec<u8>>>)
    ensures
        argument_texts(before + after) == argument_texts(before) + argument_texts(after),
    decreases after.len(),
{
    if after.len() == 0 {
        assert(before + after =~= before);
        assert(argument_texts(before) + argument_texts(after) =~= argument_texts(before));
    } else {
        lemma_argument_texts_add(before, after.drop_last());
        assert((before + after).drop_last() =~= before + after.drop_last());
        assert(argument_texts(before + after) =~= argument_texts(before) + argument_texts(after));
    }
}

/// A thing is set if and only if a line sets it, and then to what the last such
/// line has behind the key.
pub proof fn law_settings(
    earlier: Seq<Seq<char>>,
    key: Seq<char>,
    value: Seq<char>,
    later: Seq<Seq<char>>,
)
    requires
        forall|i: int, rest: Seq<char>|
            0 <= i < later.len() ==> #[trigger] later[i] != #[trigger] (key + rest),
    ensures
        last_setting(earlier + seq![key + value] + later, key) == Some(value),
        last_setting(later, key) is None,
{
    assert forall|i: int| 0 <= i < later.len() implies !key.is_prefix_of(#[trigger] later[i]) by {
        if key.is_prefix_of(later[i]) {
            let rest = later[i].skip(key.len() as int);
            assert(later[i] =~= key + rest);
        }
    }
    law_last_setting_counts(earlier, key, value, later);
    assert(earlier + seq![key + value] + later =~= earlier.push(key + value) + later);
    lemma_not_set(later, key);
}

proof fn lemma_not_set(lines: Seq<Seq<char>>, key: Seq<char>)
    requires
        forall|i: int| 0 <= i < lines.len() ==> !key.is_prefix_of(#[trigger] lines[i]),
    ensures
        last_setting(lines, key) is None,
    decreases lines.len(),
{
    if lines.len() > 0 {
        let front = lines.drop_last();
        assert forall|i: int| 0 <= i < front.len() implies !key.is_prefix_of(
            #[trigger] front[i],
        ) by {
            assert(front[i] == lines[i]);
        }
        assert(!key.is_prefix_of(lines[lines.len() - 1]));
        lemma_not_set(front, key);
    }
}

/// A file is read line by line: each line gives its text without the white space
/// around it, up to the first line that is not well-formed UTF-8, with which
/// reading ends. Without a file there are no lines.
pub proof fn law_file_lines(line: Seq<u8>, rest: Seq<u8>)
    requires
        !line.contains(0x0a),
    ensures
        file_lines(None) == Seq::<Seq<char>>::empty(),
        valid_utf8(line) ==> file_lines(Some(line)) == seq![trimmed(decode_utf8(line))],
        valid_utf8(line) ==> file_lines(Some(line + seq![0x0au8] + rest)) == seq![
            trimmed(decode_utf8(line)),
        ] + file_lines(Some(rest)),
        !valid_utf8(line) ==> file_lines(Some(line)) == Seq::<Seq<char>>::empty(),
        !valid_utf8(line) ==> file_lines(Some(line + seq![0x0au8] + rest)) == Seq::<
            Seq<char>,
        >::empty(),
{
    law_split(line, 0x0au8, rest);
    let one = split(line, 0x0au8);
    let all = split(line + seq![0x0au8] + rest, 0x0au8);
    assert(one =~= seq![line]);
    assert(one.drop_first() =~= Seq::<Seq<u8>>::empty());
    assert(readable(one.drop_first()) =~= Seq::<Seq<char>>::empty());
    assert(all[0] == line);
    assert(all.drop_first() =~= split(rest, 0x0au8));
    if valid_utf8(line) {
        assert(seq![trimmed(decode_utf8(line))] + Seq::<Seq<char>>::empty() =~= seq![
            trimmed(decode_utf8(line)),
        ]);
    }
}

/// Flags are passed on in the order of their lines, as often as they occur: a
/// line adds itself if it begins with a dash and has no null character, and
/// nothing otherwise. From the options file `-f` and `-fg` are not passed on.
pub proof fn law_flags_in_order(lines: Seq<Seq<char>>, line: Seq<char>, more: Seq<Seq<char>>)
    ensures
        ({
            let flag = line.len() > 0 && line[0] == '-' && !line.contains('\0');
            let background = line != "-f"@ && line != "-fg"@;
            &&& flags_of(Seq::empty()) == Seq::<Seq<char>>::empty()
            &&& options_of(Seq::empty()) == Seq::<Seq<char>>::empty()
            &&& flags_of(lines.push(line)) == if flag {
                flags_of(lines) + seq![line]
            } else {
                flags_of(lines)
            }
            &&& options_of(lines.push(line)) == if flag && background {
                options_of(lines) + seq![line]
            } else {
                options_of(lines)
            }
            &&& flags_of(lines + more) == flags_of(lines) + flags_of(more)
            &&& options_of(lines + more) == options_of(lines) + options_of(more)
        }),
{
    let flag = |line: Seq<char>| is_flag(line);
    let option = |line: Seq<char>| is_option(line);
    reveal(Seq::filter);
    lines.lemma_filter_push(line, flag);
    lines.lemma_filter_push(line, option);
    assert(flags_of(lines).push(line) =~= flags_of(lines) + seq![line]);
    assert(options_of(lines).push(line) =~= options_of(lines) + seq![line]);
    Seq::filter_distributes_over_add(lines, more, flag);
    Seq::filter_distributes_over_add(lines, more, option);
}

/// The file in a directory: the directory, a slash and the name of the file, as
/// far as a C string carries them.
pub proof fn law_path_in(dir: Seq<char>, file: Seq<char>)
    ensures
        path_in(dir, file) == until_nul(dir + "/"@ + file),
        !dir.contains('\0') && !file.contains('\0') ==> path_in(dir, file) == dir + "/"@ + file,
{
    law_slashed(dir, file);
    if !dir.contains('\0') && !file.contains('\0') {
        lemma_slashed_no_nul(dir, file);
    }
}

/// Where things are for a user: the toggles in the directory that is set, or in
/// `.gocryptfs` in the home directory, the cipher data in its directory
/// `gocryptfs`, and the mount point where it is set, or `Private` in the home
/// directory. Each is carried by a C string.
pub proof fn law_paths(
    paths: Paths,
    pwd: PasswordInfo,
    cipher: Option<Seq<char>>,
    mount: Option<Seq<char>>,
)
    requires
        paths.follow(pwd, cipher, mount),
    ensures
        ({
            let home = lossy_text(pwd.dir@);
            let dir = match cipher {
                Some(specifier) => specified(pwd, specifier),
                None => home + "/.gocryptfs"@,
            };
            let place = match mount {
                Some(specifier) => specified(pwd, specifier),
                None => home + "/Private"@,
            };
            &&& paths.config_dir@ == until_nul(dir)
            &&& paths.cipher_dir@ == until_nul(dir + "/gocryptfs"@)
            &&& paths.mountpoint@ == until_nul(place)
            &&& config_file(pwd) == until_nul(home + "/.gocryptfs/config"@)
        }),
{
    reveal_strlit("/");
    reveal_strlit("config");
    reveal_strlit("gocryptfs");
    reveal_strlit("/gocryptfs");
    reveal_strlit(".gocryptfs");
    reveal_strlit("/.gocryptfs");
    reveal_strlit("/.gocryptfs/config");
    reveal_strlit("Private");
    reveal_strlit("/Private");
    let home = lossy_text(pwd.dir@);
    let dir = config_directory(pwd, cipher);
    assert(slashed(home, ".gocryptfs"@) =~= home + "/.gocryptfs"@);
    assert(slashed(home, "Private"@) =~= home + "/Private"@);
    assert(slashed(dir, "gocryptfs"@) =~= dir + "/gocryptfs"@);
    assert(slashed(slashed(home, ".gocryptfs"@), "config"@) =~= home + "/.gocryptfs/config"@);
}

/// The cipher data is in the directory of the toggles, unless a null character
/// cuts the path short.
pub proof fn law_cipher_beside_toggles(
    paths: Paths,
    pwd: PasswordInfo,
    cipher: Option<Seq<char>>,
    mount: Option<Seq<char>>,
)
    requires
        paths.follow(pwd, cipher, mount),
    ensures
        paths.cipher_dir@ == paths.config_dir@ + "/gocryptfs"@ || paths.cipher_dir@
            == paths.config_dir@,
        !config_directory(pwd, cipher).contains('\0') ==> paths.cipher_dir@ == paths.config_dir@
            + "/gocryptfs"@,
{
    reveal_strlit("gocryptfs");
    reveal_strlit("/gocryptfs");
    let dir = config_directory(pwd, cipher);
    assert(slashed(dir, "gocryptfs"@) =~= dir + "/gocryptfs"@);
    if !dir.contains('\0') {
        lemma_until_nul_whole(dir);
        lemma_slashed_no_nul(dir, "gocryptfs"@);
    } else {
        lemma_until_nul_cut(dir, "/gocryptfs"@);
    }
}

/// What follows a null character is not carried.
proof fn lemma_until_nul_cut(s: Seq<char>, more: Seq<char>)
    requires
        s.contains('\0'),
    ensures
        until_nul(s + more) == until_nul(s),
    decreases s.len(),
{
    assert((s + more)[0] == s[0]);
    if s[0] != '\0' {
        let k = choose|k: int| 0 <= k < s.len() && s[k] == '\0';
        assert(s.drop_first()[k - 1] == '\0');
        lemma_until_nul_cut(s.drop_first(), more);
        assert((s + more).drop_first() =~= s.drop_first() + more);
    }
}

/// Of two settings the first counts, unless it is not there.
pub proof fn law_first_set(a: Seq<char>, b: Option<Seq<char>>)
    ensures
        first_set(Some(a), b) == Some(a),
        first_set(None, b) == b,
{
}

/// The bytes of an optional file are there if and only if the file is.
pub proof fn law_optional_bytes(contents: Option<&Vec<u8>>)
    ensures
        opt_bytes(contents) is Some <==> contents is Some,
        contents matches Some(bytes) ==> opt_bytes(contents) == Some(bytes@),
{
}

} // verus!
