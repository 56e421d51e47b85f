//! Config files may refer to environment variables as `${env.NAME}`: each such
//! reference is replaced by the variable's value before the file is parsed.
use vstd::prelude::*;
use crate::config::keys::{compare_keys, KeyOrder};

verus! {

/// `t` starts with the text `${env.`.
pub open spec fn starts_with_env_ref(t: Seq<char>) -> bool {
    &&& t.len() >= 6
    &&& t[0] == '$'
    &&& t[1] == '{'
    &&& t[2] == 'e'
    &&& t[3] == 'n'
    &&& t[4] == 'v'
    &&& t[5] == '.'
}

/// How many characters at the start of `t` are not `}`.
pub open spec fn name_run(t: Seq<char>) -> nat
    decreases t.len(),
{
    if t.len() == 0 || t[0] == '}' {
        0
    } else {
        1 + name_run(t.drop_first())
    }
}

/// The length of the variable's name, where `t` starts with a reference
/// `${env.NAME}`: `NAME` is one or more characters other than `}`.
pub open spec fn env_ref_name_len(t: Seq<char>) -> Option<nat> {
    if starts_with_env_ref(t) && name_run(t.skip(6)) > 0 && name_run(t.skip(6)) < t.len() - 6 {
        Some(name_run(t.skip(6)))
    } else {
        None
    }
}

/// The value of the variable `name` among `env`: that of its first entry.
pub open spec fn env_lookup(env: Seq<(String, String)>, name: Seq<char>) -> Option<Seq<char>>
    decreases env.len(),
{
    if env.len() == 0 {
        None
    } else if env[0].0@ == name {
        Some(env[0].1@)
    } else {
        env_lookup(env.drop_first(), name)
    }
}

/// `r` with `p` in front of its text.
pub open spec fn prepend(p: Seq<char>, r: Result<Seq<char>, Seq<char>>) -> Result<Seq<char>, Seq<char>> {
    match r {
        Ok(x) => Ok(p + x),
        Err(e) => Err(e),
    }
}

/// `t` with each reference `${env.NAME}`, from left to right, replaced by the value of
/// `NAME` in `env`; the name of the first variable that `env` lacks is the error.
pub open spec fn render(t: Seq<char>, env: Seq<(String, String)>) -> Result<Seq<char>, Seq<char>>
    decreases t.len(),
{
    if t.len() == 0 {
        Ok(Seq::empty())
    } else {
        match env_ref_name_len(t) {
            Some(n) => {
                let name = t.subrange(6, 6 + n as int);
                match env_lookup(env, name) {
                    Some(v) => prepend(v, render(t.skip(6 + n as int + 1), env)),
                    None => Err(name),
                }
            },
            None => prepend(seq![t[0]], render(t.drop_first(), env)),
        }
    }
}

/// A reference to an environment variable that is not set.
#[derive(Debug)]
pub struct TemplateError {
    pub variable: String,
}

impl TemplateError {
    pub fn message(&self) -> (m: String)
        ensures
            m@ == "Unable to replace environment variable "@ + self.variable@,
    {
        let mut m = String::from_str("Unable to replace environment variable ");
        m.append(self.variable.as_str());
        m
    }
}

/// The value of `name` in `env`.
pub fn lookup_env<'a>(env: &'a Vec<(String, String)>, name: &str) -> (r: Option<&'a String>)
    ensures
        match env_lookup(env@, name@) {
            Some(v) => r matches Some(s) && s@ == v,
            None => r is None,
        },
{
    let mut i: usize = 0;
    assert(env@.skip(0) =~= env@);
    while i < env.len()
        invariant
            i <= env.len(),
            env_lookup(env@, name@) == env_lookup(env@.skip(i as int), name@),
        decreases env.len() - i,
    {
        assert(env@.skip(i as int)[0] == env@[i as int]);
        assert(env@.skip(i as int).drop_first() =~= env@.skip(i + 1));
        if compare_keys(env[i].0.as_str(), name) == KeyOrder::Equal {
            return Some(&env[i].1);
        }
        i = i + 1;
    }
    None
}

proof fn lemma_prepend_assoc(a: Seq<char>, b: Seq<char>, r: Result<Seq<char>, Seq<char>>)
    ensures
        prepend(a, prepend(b, r)) == prepend(a + b, r),
{
    match r {
        Ok(x) => {
            assert(a + (b + x) =~= (a + b) + x);
        },
        Err(_) => {},
    }
}

/// A text without `$` renders as itself, whatever the environment.
pub proof fn lemma_render_plain_text(t: Seq<char>, env: Seq<(String, String)>)
    requires
        forall|i: int| 0 <= i < t.len() ==> #[trigger] t[i] != '$',
    ensures
        render(t, env) == Ok::<Seq<char>, Seq<char>>(t),
    decreases t.len(),
{
    if t.len() > 0 {
        let r = t.drop_first();
        assert forall|i: int| 0 <= i < r.len() implies #[trigger] r[i] != '$' by {
            assert(r[i] == t[i + 1]);
        }
        lemma_render_plain_text(r, env);
        assert(t[0] != '$');
        assert(!starts_with_env_ref(t));
        assert(env_ref_name_len(t) is None);
        assert(seq![t[0]] + r =~= t);
    } else {
        assert(t =~= Seq::<char>::empty());
    }
}

/// Rendering goes left to right: text before a reference is kept as it is, and the
/// whole fails exactly when a part fails.
pub proof fn lemma_render_keeps_leading_char(t: Seq<char>, env: Seq<(String, String)>)
    requires
        t.len() > 0,
        t[0] != '$',
    ensures
        render(t, env) == prepend(seq![t[0]], render(t.drop_first(), env)),
{
}

/// Replaces each reference `${env.NAME}` in `template` by the value of `NAME` in
/// `env`, the environment's variables; fails on the first reference to a variable
/// that `env` lacks.
pub fn render_template(template: &str, env: &Vec<(String, String)>) -> (r: Result<String, TemplateError>)
    ensures
        match render(template@, env@) {
            Ok(s) => r matches Ok(out) && out@ == s,
            Err(name) => r matches Err(e) && e.variable@ == name,
        },
{
    let ghost t = template@;
    let n = template.unicode_len();
    let mut out = String::new();
    let mut i: usize = 0;
    assert(t.skip(0) =~= t);
    assert(Seq::<char>::empty() + t =~= t);
    proof {
        match render(t, env@) {
            Ok(x) => { assert(Seq::<char>::empty() + x =~= x); },
            Err(_) => {},
        }
    }
    while i < n
        invariant
            n == t.len(),
            i <= n,
            t == template@,
            render(t, env@) == prepend(out@, render(t.skip(i as int), env@)),
        decreases n - i,
    {
        let ghost rest = t.skip(i as int);
        let is_ref = n - i >= 6
            && template.get_char(i) == '$'
            && template.get_char(i + 1) == '{'
            && template.get_char(i + 2) == 'e'
            && template.get_char(i + 3) == 'n'
            && template.get_char(i + 4) == 'v'
            && template.get_char(i + 5) == '.';
        assert(is_ref == starts_with_env_ref(rest)) by {
            if i + 6 <= n {
                assert(rest[0] == t[i as int]);
                assert(rest[1] == t[i + 1]);
                assert(rest[2] == t[i + 2]);
                assert(rest[3] == t[i + 3]);
                assert(rest[4] == t[i + 4]);
                assert(rest[5] == t[i + 5]);
            }
        }
        let mut matched = false;
        if is_ref {
            let start = i + 6;
            let mut j: usize = start;
            assert(t.skip(start as int) =~= rest.skip(6));
            while j < n && template.get_char(j) != '}'
                invariant
                    start <= j <= n,
                    n == t.len(),
                    t == template@,
                    name_run(t.skip(start as int)) == (j - start) + name_run(t.skip(j as int)),
                decreases n - j,
            {
                assert(t.skip(j as int)[0] == t[j as int]);
                assert(t.skip(j as int).drop_first() =~= t.skip(j + 1));
                j = j + 1;
            }
            assert(name_run(t.skip(j as int)) == 0) by {
                if j < n {
                    assert(t.skip(j as int)[0] == t[j as int]);
                }
            }
            if j < n && j > start {
                let ghost len = (j - start) as nat;
                assert(env_ref_name_len(rest) == Some(len));
                let name = template.substring_char(start, j);
                assert(name@ =~= rest.subrange(6, 6 + len as int));
                match lookup_env(env, name) {
                    Some(v) => {
                        let ghost before = out@;
                        out.append(v.as_str());
                        proof {
                            assert(rest.skip(6 + len as int + 1) =~= t.skip(j + 1));
                            lemma_prepend_assoc(before, v@, render(t.skip(j + 1), env@));
                        }
                        i = j + 1;
                        matched = true;
                    },
                    None => {
                        return Err(TemplateError { variable: name.to_owned() });
                    },
                }
            } else {
                assert(env_ref_name_len(rest) is None);
            }
        }
        if !matched {
            assert(env_ref_name_len(rest) is None);
            let ghost before = out@;
            let c = template.substring_char(i, i + 1);
            out.append(c);
            proof {
                assert(c@ =~= seq![rest[0]]);
                assert(rest.drop_first() =~= t.skip(i + 1));
                lemma_prepend_assoc(before, c@, render(t.skip(i + 1), env@));
            }
            i = i + 1;
        }
    }
    proof {
        assert(t.skip(i as int).len() == 0);
        assert(out@ + Seq::<char>::empty() =~= out@);
    }
    Ok(out)
}

} // verus!
