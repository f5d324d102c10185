//! Paths in normal form, by which two spellings of a mount point are compared.

use vstd::prelude::*;
use vstd::string::*;

use crate::text::{join, join_chars, same_as, split, split_at_char, texts, to_chars};
use crate::text::{
    law_split_parts_lack_separator, law_split_undoes_join, lemma_split_concat,
    lemma_split_single,
};

verus! {

/// The component that stands for the directory itself.
pub open spec fn dot() -> Seq<char> {
    seq!['.']
}

/// The component that stands for the parent directory.
pub open spec fn dot_dot() -> Seq<char> {
    seq!['.', '.']
}

/// A component that names an entry of a directory.
pub open spec fn is_name(component: Seq<char>) -> bool {
    component.len() > 0 && component != dot() && component != dot_dot()
}

/// Whether a path starts at the root directory.
pub open spec fn is_absolute(path: Seq<char>) -> bool {
    path.len() > 0 && path[0] == '/'
}

/// Where one more component leads from `parts`. A parent component takes the
/// last name back. With no name left it is kept in a relative path, and has
/// no effect at the root.
pub open spec fn descend(absolute: bool, parts: Seq<Seq<char>>, component: Seq<char>) -> Seq<
    Seq<char>,
> {
    if is_name(component) {
        parts.push(component)
    } else if component != dot_dot() {
        parts
    } else if parts.len() > 0 && parts.last() != dot_dot() {
        parts.drop_last()
    } else if absolute {
        parts
    } else {
        parts.push(dot_dot())
    }
}

/// Where the components lead, one after the other.
pub open spec fn resolve(absolute: bool, components: Seq<Seq<char>>) -> Seq<Seq<char>>
    decreases components.len(),
{
    if components.len() == 0 {
        Seq::empty()
    } else {
        descend(absolute, resolve(absolute, components.drop_last()), components.last())
    }
}

/// The components of the normal form of a path.
pub open spec fn normal_parts(path: Seq<char>) -> Seq<Seq<char>> {
    resolve(is_absolute(path), split(path, '/'))
}

/// The normal form of a path.
pub open spec fn normalized(path: Seq<char>) -> Seq<char> {
    let joined = join(normal_parts(path), '/');
    if is_absolute(path) {
        seq!['/'] + joined
    } else {
        joined
    }
}

/// The normal form of a path: no empty and no `.` components, no `..` behind a
/// name, and no slash at the end except that of the root itself.
pub fn normalize_path(path: &str) -> (r: String)
    ensures
        r@ == normalized(path@),
{
    let chars = to_chars(path);
    let absolute: bool = chars.len() > 0 && chars[0] == '/';
    let components = split_at_char(&chars, '/');
    let ghost all = texts(components@);
    let mut parts: Vec<Vec<char>> = Vec::new();
    assert(texts(parts@) =~= resolve(absolute, all.take(0)));
    for i in 0..components.len()
        invariant
            all == texts(components@),
            texts(parts@) == resolve(absolute, all.take(i as int)),
    {
        proof {
            reveal_strlit("");
            reveal_strlit(".");
            reveal_strlit("..");
            assert("."@ =~= dot());
            assert(".."@ =~= dot_dot());
            assert(all.take(i + 1).drop_last() =~= all.take(i as int));
        }
        let ghost before = texts(parts@);
        let component = &components[i];
        assert(component@ == all[i as int]);
        if component.len() == 0 || same_as(component, ".") {
            assert(texts(parts@) == descend(absolute, before, component@));
        } else if same_as(component, "..") {
            let up: bool = parts.len() > 0 && !same_as(&parts[parts.len() - 1], "..");
            assert(parts.len() > 0 ==> before.last() == parts@.last()@);
            if up {
                parts.pop();
                assert(texts(parts@) =~= before.drop_last());
            } else if !absolute {
                let parent = to_chars("..");
                parts.push(parent);
                assert(texts(parts@) =~= before.push(dot_dot()));
            }
        } else {
            let name = component.clone();
            assert(name@ =~= component@);
            parts.push(name);
            assert(texts(parts@) =~= before.push(component@));
        }
        assert(texts(parts@) == descend(absolute, before, component@));
    }
    assert(all.take(all.len() as int) =~= all);
    let joined = join_chars(&parts, '/');
    if absolute {
        let mut r: String = String::new();
        r.push('/');
        r.append(joined.as_str());
        assert(r@ =~= seq!['/'] + joined@);
        r
    } else {
        joined
    }
}

/// Components in normal form: each has a name or is a parent component, and
/// parent components stand in front, in relative paths alone.
pub open spec fn is_normal(absolute: bool, parts: Seq<Seq<char>>) -> bool {
    forall|i: int|
        #![trigger parts[i]]
        0 <= i < parts.len() ==> {
            &&& !parts[i].contains('/')
            &&& is_name(parts[i]) || parts[i] == dot_dot()
            &&& parts[i] == dot_dot() ==> !absolute && (i == 0 || parts[i - 1] == dot_dot())
        }
}

proof fn lemma_resolve_is_normal(absolute: bool, components: Seq<Seq<char>>)
    requires
        forall|i: int| 0 <= i < components.len() ==> !(#[trigger] components[i]).contains('/'),
    ensures
        is_normal(absolute, resolve(absolute, components)),
    decreases components.len(),
{
    if components.len() > 0 {
        let front = components.drop_last();
        assert forall|i: int| 0 <= i < front.len() implies !(#[trigger] front[i]).contains('/') by {
            assert(front[i] == components[i]);
        }
        lemma_resolve_is_normal(absolute, front);
        let parts = resolve(absolute, front);
        let component = components.last();
        assert(!components[components.len() - 1].contains('/'));
        let next = descend(absolute, parts, component);
        assert(next == resolve(absolute, components));
        assert forall|i: int| #![trigger next[i]] 0 <= i < next.len() implies {
            &&& !next[i].contains('/')
            &&& is_name(next[i]) || next[i] == dot_dot()
            &&& next[i] == dot_dot() ==> !absolute && (i == 0 || next[i - 1] == dot_dot())
        } by {
            if i < parts.len() {
                assert(next[i] == parts[i]);
                if i > 0 {
                    assert(next[i - 1] == parts[i - 1]);
                }
            } else {
                assert(next[i] == component);
            }
        }
    }
}

proof fn lemma_resolve_keeps_normal(absolute: bool, parts: Seq<Seq<char>>)
    requires
        is_normal(absolute, parts),
    ensures
        resolve(absolute, parts) == parts,
    decreases parts.len(),
{
    if parts.len() > 0 {
        let front = parts.drop_last();
        assert forall|i: int| #![trigger front[i]] 0 <= i < front.len() implies {
            &&& !front[i].contains('/')
            &&& is_name(front[i]) || front[i] == dot_dot()
            &&& front[i] == dot_dot() ==> !absolute && (i == 0 || front[i - 1] == dot_dot())
        } by {
            assert(front[i] == parts[i]);
            if i > 0 {
                assert(front[i - 1] == parts[i - 1]);
            }
        }
        lemma_resolve_keeps_normal(absolute, front);
        let last = parts[parts.len() - 1];
        assert(front.push(last) =~= parts);
        if last == dot_dot() && front.len() > 0 {
            assert(front.last() == parts[parts.len() - 2]);
        }
    } else {
        assert(parts =~= Seq::empty());
    }
}

/// Components that lead to the same place can be exchanged in front of others.
proof fn lemma_resolve_same_start(
    absolute: bool,
    a: Seq<Seq<char>>,
    b: Seq<Seq<char>>,
    rest: Seq<Seq<char>>,
)
    requires
        resolve(absolute, a) == resolve(absolute, b),
    ensures
        resolve(absolute, a + rest) == resolve(absolute, b + rest),
    decreases rest.len(),
{
    if rest.len() == 0 {
        assert(a + rest =~= a);
        assert(b + rest =~= b);
    } else {
        lemma_resolve_same_start(absolute, a, b, rest.drop_last());
        assert((a + rest).drop_last() =~= a + rest.drop_last());
        assert((b + rest).drop_last() =~= b + rest.drop_last());
    }
}

/// An empty component, or one that stands for the directory itself, leads
/// nowhere.
proof fn lemma_resolve_idle(absolute: bool, front: Seq<Seq<char>>, idle: Seq<char>)
    requires
        idle.len() == 0 || idle == dot(),
    ensures
        resolve(absolute, front.push(idle)) == resolve(absolute, front),
{
    assert(front.push(idle).drop_last() =~= front);
    assert(dot() != dot_dot()) by {
        assert(dot().len() == 1 && dot_dot().len() == 2);
    }
}

/// The components of a normal form are in normal form.
pub proof fn law_normal_parts(path: Seq<char>)
    ensures
        is_normal(is_absolute(path), normal_parts(path)),
{
    law_split_parts_lack_separator(path, '/');
    lemma_resolve_is_normal(is_absolute(path), split(path, '/'));
}

/// The normal form of an absolute path is absolute, and only of such a path.
pub proof fn law_normalize_keeps_root(path: Seq<char>)
    ensures
        is_absolute(normalized(path)) == is_absolute(path),
{
    law_normal_parts(path);
    let parts = normal_parts(path);
    if !is_absolute(path) && parts.len() > 0 {
        lemma_join_head(parts);
        assert(parts[0].len() > 0);
        assert(parts[0][0] != '/');
        assert(join(parts, '/').subrange(0, parts[0].len() as int)[0] == parts[0][0]);
    }
}

/// A joined text begins with its first part.
proof fn lemma_join_head(parts: Seq<Seq<char>>)
    requires
        parts.len() > 0,
    ensures
        parts[0].is_prefix_of(join(parts, '/')),
    decreases parts.len(),
{
    if parts.len() > 1 {
        let front = parts.drop_last();
        lemma_join_head(front);
        let whole = join(parts, '/');
        assert(whole =~= join(front, '/') + (seq!['/'] + parts.last()));
        assert(whole.subrange(0, parts[0].len() as int) =~= join(front, '/').subrange(
            0,
            parts[0].len() as int,
        ));
    }
}

/// The normal form of a path is in normal form already.
pub proof fn law_normalize_idempotent(path: Seq<char>)
    ensures
        normalized(normalized(path)) == normalized(path),
{
    let absolute = is_absolute(path);
    let parts = normal_parts(path);
    let joined = join(parts, '/');
    law_normal_parts(path);
    law_normalize_keeps_root(path);
    lemma_resolve_keeps_normal(absolute, parts);
    if parts.len() > 0 {
        law_split_undoes_join(parts, '/');
    } else {
        assert(joined =~= Seq::empty());
        lemma_split_single(joined, '/');
        lemma_resolve_idle(absolute, Seq::empty(), joined);
        assert(Seq::<Seq<char>>::empty().push(joined) =~= split(joined, '/'));
    }
    assert(resolve(absolute, split(joined, '/')) == parts);
    if absolute {
        let empty = Seq::<char>::empty();
        assert(empty.push('/') + joined =~= normalized(path));
        lemma_split_concat(empty, '/', joined);
        assert(split(empty, '/') =~= Seq::<Seq<char>>::empty().push(empty));
        lemma_resolve_idle(absolute, Seq::empty(), empty);
        lemma_resolve_same_start(
            absolute,
            split(empty, '/'),
            Seq::empty(),
            split(joined, '/'),
        );
        assert(Seq::<Seq<char>>::empty() + split(joined, '/') =~= split(joined, '/'));
    }
}

/// An empty or a `.` component in the middle of a path makes no difference:
/// `a//b` and `a/./b` have the normal form of `a/b`.
pub proof fn law_normalize_skips_idle(a: Seq<char>, idle: Seq<char>, b: Seq<char>)
    requires
        idle.len() == 0 || idle == dot(),
    ensures
        normalized(a.push('/') + idle.push('/') + b) == normalized(a.push('/') + b),
{
    let long = a.push('/') + idle.push('/') + b;
    let short = a.push('/') + b;
    let absolute = is_absolute(long);
    assert(absolute == is_absolute(short)) by {
        assert(long[0] == a.push('/')[0]);
        assert(short[0] == a.push('/')[0]);
    }
    assert(long =~= a.push('/') + (idle.push('/') + b));
    lemma_split_concat(a, '/', idle.push('/') + b);
    lemma_split_concat(idle, '/', b);
    lemma_split_concat(a, '/', b);
    lemma_split_single(idle, '/');
    lemma_resolve_idle(absolute, split(a, '/'), idle);
    lemma_resolve_same_start(absolute, split(a, '/').push(idle), split(a, '/'), split(b, '/'));
    assert(split(a, '/').push(idle) + split(b, '/') =~= split(long, '/'));
}

/// A slash at the end makes no difference, but for the empty path, which a
/// slash turns into the root.
pub proof fn law_normalize_trailing_slash(path: Seq<char>)
    requires
        path.len() > 0,
    ensures
        normalized(path.push('/')) == normalized(path),
{
    let long = path.push('/');
    let empty = Seq::<char>::empty();
    assert(long =~= path.push('/') + empty);
    lemma_split_concat(path, '/', empty);
    assert(split(long, '/') =~= split(path, '/').push(empty));
    lemma_resolve_idle(is_absolute(path), split(path, '/'), empty);
}

/// A name and the parent component behind it cancel out: `a/name/../b` has the
/// normal form of `a/b`.
pub proof fn law_normalize_parent(a: Seq<char>, name: Seq<char>, b: Seq<char>)
    requires
        is_name(name),
        !name.contains('/'),
    ensures
        normalized(a.push('/') + name.push('/') + dot_dot().push('/') + b) == normalized(
            a.push('/') + b,
        ),
{
    let long = a.push('/') + name.push('/') + dot_dot().push('/') + b;
    let short = a.push('/') + b;
    let absolute = is_absolute(long);
    assert(absolute == is_absolute(short)) by {
        assert(long[0] == a.push('/')[0]);
        assert(short[0] == a.push('/')[0]);
    }
    assert(long =~= a.push('/') + (name.push('/') + (dot_dot().push('/') + b)));
    lemma_split_concat(a, '/', name.push('/') + (dot_dot().push('/') + b));
    lemma_split_concat(name, '/', dot_dot().push('/') + b);
    lemma_split_concat(dot_dot(), '/', b);
    lemma_split_concat(a, '/', b);
    lemma_split_single(name, '/');
    lemma_split_single(dot_dot(), '/');
    let front = split(a, '/');
    let down = front.push(name);
    let back = down.push(dot_dot());
    assert(back.drop_last() =~= down);
    assert(down.drop_last() =~= front);
    assert(resolve(absolute, down) == resolve(absolute, front).push(name));
    assert(resolve(absolute, front).push(name).drop_last() =~= resolve(absolute, front));
    lemma_resolve_same_start(absolute, back, front, split(b, '/'));
    assert(back + split(b, '/') =~= split(long, '/'));
}

/// The root is its own parent: `/../b` has the normal form of `/b`.
pub proof fn law_normalize_above_root(b: Seq<char>)
    ensures
        normalized(seq!['/'] + dot_dot().push('/') + b) == normalized(seq!['/'] + b),
{
    let empty = Seq::<char>::empty();
    let long = seq!['/'] + dot_dot().push('/') + b;
    let short = seq!['/'] + b;
    assert(long =~= empty.push('/') + (dot_dot().push('/') + b));
    assert(short =~= empty.push('/') + b);
    lemma_split_concat(empty, '/', dot_dot().push('/') + b);
    lemma_split_concat(dot_dot(), '/', b);
    lemma_split_concat(empty, '/', b);
    lemma_split_single(dot_dot(), '/');
    lemma_split_single(empty, '/');
    let front = split(empty, '/');
    let up = front.push(dot_dot());
    assert(front =~= Seq::<Seq<char>>::empty().push(empty));
    lemma_resolve_idle(true, Seq::empty(), empty);
    assert(up.drop_last() =~= front);
    lemma_resolve_same_start(true, up, front, split(b, '/'));
    assert(up + split(b, '/') =~= split(long, '/'));
}

/// A path of names is its own normal form, whether it starts at the root or not,
/// and so is one that leads up first. Nothing that has to be there is lost.
pub proof fn law_normal_path_stays(up: nat, names: Seq<Seq<char>>)
    requires
        forall|i: int| #![trigger names[i]]
            0 <= i < names.len() ==> names[i].len() > 0 && names[i] != "."@ && names[i] != ".."@
                && !names[i].contains('/'),
    ensures
        normalized(seq!['/'] + join(names, '/')) == seq!['/'] + join(names, '/'),
        normalized(join(Seq::new(up, |i: int| ".."@) + names, '/')) == join(
            Seq::new(up, |i: int| ".."@) + names,
            '/',
        ),
{
    reveal_strlit(".");
    reveal_strlit("..");
    assert("."@ =~= dot());
    assert(".."@ =~= dot_dot());
    assert(is_normal(true, names));
    lemma_normal_stays(true, names);
    let parts = Seq::new(up, |i: int| ".."@) + names;
    assert forall|i: int| #![trigger parts[i]] 0 <= i < parts.len() implies {
        &&& !parts[i].contains('/')
        &&& is_name(parts[i]) || parts[i] == dot_dot()
        &&& parts[i] == dot_dot() ==> i == 0 || parts[i - 1] == dot_dot()
    } by {
        if i >= up {
            assert(parts[i] == names[i - up]);
        }
    }
    lemma_normal_stays(false, parts);
}

proof fn lemma_normal_stays(absolute: bool, parts: Seq<Seq<char>>)
    requires
        is_normal(absolute, parts),
    ensures
        ({
            let joined = join(parts, '/');
            let path = if absolute {
                seq!['/'] + joined
            } else {
                joined
            };
            normalized(path) == path
        }),
{
    let joined = join(parts, '/');
    let empty = Seq::<char>::empty();
    lemma_resolve_keeps_normal(absolute, parts);
    if parts.len() > 0 {
        law_split_undoes_join(parts, '/');
    } else {
        assert(joined =~= empty);
        lemma_split_single(joined, '/');
        lemma_resolve_idle(absolute, Seq::empty(), joined);
        assert(Seq::<Seq<char>>::empty().push(joined) =~= split(joined, '/'));
    }
    assert(resolve(absolute, split(joined, '/')) == parts);
    if absolute {
        let path = seq!['/'] + joined;
        assert(empty.push('/') + joined =~= path);
        lemma_split_concat(empty, '/', joined);
        assert(split(empty, '/') =~= Seq::<Seq<char>>::empty().push(empty));
        lemma_resolve_idle(absolute, Seq::empty(), empty);
        lemma_resolve_same_start(absolute, split(empty, '/'), Seq::empty(), split(joined, '/'));
        assert(Seq::<Seq<char>>::empty() + split(joined, '/') =~= split(joined, '/'));
    } else if parts.len() > 0 {
        lemma_join_head(parts);
        assert(parts[0].len() > 0);
        assert(parts[0][0] != '/');
        assert(joined.subrange(0, parts[0].len() as int)[0] == parts[0][0]);
    }
}

/// A `.` in front of a relative path makes no difference.
pub proof fn law_normalize_leading_dot(path: Seq<char>)
    requires
        path.len() > 0 ==> path[0] != '/',
    ensures
        normalized("./"@ + path) == normalized(path),
{
    reveal_strlit("./");
    let long = "./"@ + path;
    assert(long =~= dot().push('/') + path);
    assert(long[0] == '.');
    lemma_split_concat(dot(), '/', path);
    lemma_split_single(dot(), '/');
    let empty = Seq::<Seq<char>>::empty();
    lemma_resolve_idle(false, empty, dot());
    assert(empty.push(dot()) =~= seq![dot()]);
    lemma_resolve_same_start(false, seq![dot()], empty, split(path, '/'));
    assert(empty + split(path, '/') =~= split(path, '/'));
}

/// The components that a normal form passes over and those that it takes back,
/// spelled out: an empty one, `.`, and `..` behind a name or at the root.
pub proof fn law_normalize_rewrites(a: Seq<char>, name: Seq<char>, b: Seq<char>)
    requires
        name.len() > 0,
        name != "."@,
        name != ".."@,
        !name.contains('/'),
    ensures
        normalized(a + "//"@ + b) == normalized(a + "/"@ + b),
        normalized(a + "/./"@ + b) == normalized(a + "/"@ + b),
        normalized(a + "/"@ + name + "/../"@ + b) == normalized(a + "/"@ + b),
        normalized("/../"@ + b) == normalized("/"@ + b),
        a.len() > 0 ==> normalized(a + "/"@) == normalized(a),
        normalized(""@) == ""@,
        normalized("/"@) == "/"@,
{
    reveal_strlit("");
    reveal_strlit(".");
    reveal_strlit("..");
    reveal_strlit("/");
    reveal_strlit("//");
    reveal_strlit("/./");
    reveal_strlit("/../");
    let empty = Seq::<char>::empty();
    assert("."@ =~= dot());
    assert(".."@ =~= dot_dot());
    law_normalize_skips_idle(a, empty, b);
    law_normalize_skips_idle(a, dot(), b);
    law_normalize_parent(a, name, b);
    law_normalize_above_root(b);
    assert(a + "/"@ + b =~= a.push('/') + b);
    assert(a + "//"@ + b =~= a.push('/') + empty.push('/') + b);
    assert(a + "/./"@ + b =~= a.push('/') + dot().push('/') + b);
    assert(a + "/"@ + name + "/../"@ + b =~= a.push('/') + name.push('/') + dot_dot().push('/') + b);
    assert("/../"@ + b =~= seq!['/'] + dot_dot().push('/') + b);
    assert("/"@ + b =~= seq!['/'] + b);
    if a.len() > 0 {
        law_normalize_trailing_slash(a);
        assert(a + "/"@ =~= a.push('/'));
    }
    let none = Seq::<Seq<char>>::empty();
    law_normal_path_stays(0, none);
    assert(join(none, '/') =~= ""@);
    assert(Seq::new(0, |i: int| ".."@) + none =~= none);
    assert(seq!['/'] + join(none, '/') =~= "/"@);
}

} // verus!
