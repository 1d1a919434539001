//! The template substitution engine: a scanner over the characters of a
//! template with three states, `{name}` variable references and, when
//! enabled, backtick-delimited command references.
use vstd::prelude::*;
use vstd::string::StrSliceExecFns;
use crate::table::VariableTable;
use crate::text::{push_str, string_of};

verus! {

/// Where the scanner stands.
#[derive(Clone, Copy, PartialEq, Eq, Structural)]
pub enum Scan {
    Normal,
    InVariableRef,
    InCommandRef,
}

/// The rest of a substitution without command references, from state
/// `state` with captured name `name` and output `out` so far.
/// An `Err` carries the name of the undefined variable. A reference still
/// open at the end of the input is dropped.
pub open spec fn subst_from(
    s: Seq<char>,
    vars: Map<Seq<char>, Seq<char>>,
    state: Scan,
    name: Seq<char>,
    out: Seq<char>,
) -> Result<Seq<char>, Seq<char>>
    decreases s.len(),
{
    if s.len() == 0 {
        Ok(out)
    } else {
        let c = s[0];
        let rest = s.subrange(1, s.len() as int);
        if state == Scan::InVariableRef {
            if c == '}' {
                if vars.contains_key(name) {
                    subst_from(rest, vars, Scan::Normal, seq![], out + vars[name])
                } else {
                    Err(name)
                }
            } else if c == '{' {
                subst_from(rest, vars, Scan::Normal, seq![], out.push('{'))
            } else {
                subst_from(rest, vars, Scan::InVariableRef, name.push(c), out)
            }
        } else if c == '{' {
            subst_from(rest, vars, Scan::InVariableRef, seq![], out)
        } else {
            subst_from(rest, vars, Scan::Normal, name, out.push(c))
        }
    }
}

/// `s` with every variable reference replaced by its value.
pub open spec fn substitute(s: Seq<char>, vars: Map<Seq<char>, Seq<char>>) -> Result<Seq<char>, Seq<char>> {
    subst_from(s, vars, Scan::Normal, seq![], seq![])
}

/// Replaces each `{name}` of `value` by the value of `name` in `variables`.
/// A second `{` inside a reference stands for a literal `{`. Fails with the
/// name of the first variable referenced that is not defined.
pub fn patch_variable_references(value: &String, variables: &VariableTable) -> (r: Result<String, String>)
    requires
        variables.wf(),
    ensures
        match r {
            Ok(v) => substitute(value@, variables@) == Ok::<Seq<char>, Seq<char>>(v@),
            Err(n) => substitute(value@, variables@) == Err::<Seq<char>, Seq<char>>(n@),
        },
{
    let ghost s = value@;
    let n = value.as_str().unicode_len();
    let mut state = Scan::Normal;
    let mut name: Vec<char> = Vec::new();
    let mut out: Vec<char> = Vec::new();
    let mut i: usize = 0;
    proof {
        assert(s.subrange(0, n as int) =~= s);
        assert(name@ =~= Seq::<char>::empty());
        assert(out@ =~= Seq::<char>::empty());
    }
    while i < n
        invariant
            n == s.len(),
            i <= n,
            value@ == s,
            variables.wf(),
            state != Scan::InCommandRef,
            subst_from(s.subrange(i as int, n as int), variables@, state, name@, out@) == substitute(s, variables@),
        decreases n - i,
    {
        let c = value.as_str().get_char(i);
        proof {
            let t = s.subrange(i as int, n as int);
            assert(t[0] == c);
            assert(t.subrange(1, t.len() as int) =~= s.subrange(i + 1, n as int));
        }
        if state == Scan::InVariableRef {
            if c == '}' {
                let key = string_of(&name);
                match variables.get(&key) {
                    Some(v) => push_str(&mut out, v),
                    None => return Err(key),
                }
                state = Scan::Normal;
                name = Vec::new();
                proof {
                    assert(name@ =~= Seq::<char>::empty());
                }
            } else if c == '{' {
                out.push('{');
                state = Scan::Normal;
                name = Vec::new();
                proof {
                    assert(name@ =~= Seq::<char>::empty());
                }
            } else {
                name.push(c);
            }
        } else if c == '{' {
            state = Scan::InVariableRef;
            name = Vec::new();
            proof {
                assert(name@ =~= Seq::<char>::empty());
            }
        } else {
            out.push(c);
        }
        i = i + 1;
    }
    proof {
        assert(s.subrange(n as int, n as int).len() == 0);
    }
    Ok(string_of(&out))
}

proof fn lemma_literal_from(s: Seq<char>, vars: Map<Seq<char>, Seq<char>>, name: Seq<char>, out: Seq<char>)
    requires
        forall|i: int| 0 <= i < s.len() ==> s[i] != '{',
    ensures
        subst_from(s, vars, Scan::Normal, name, out) == Ok::<Seq<char>, Seq<char>>(out + s),
    decreases s.len(),
{
    if s.len() == 0 {
        assert(out + s =~= out);
    } else {
        let rest = s.subrange(1, s.len() as int);
        lemma_literal_from(rest, vars, name, out.push(s[0]));
        assert(out.push(s[0]) + rest =~= out + s);
    }
}

/// A template without `{` is its own substitution, whatever the variables.
pub proof fn lemma_literal_unchanged(s: Seq<char>, vars: Map<Seq<char>, Seq<char>>)
    requires
        forall|i: int| 0 <= i < s.len() ==> s[i] != '{',
    ensures
        substitute(s, vars) == Ok::<Seq<char>, Seq<char>>(s),
{
    lemma_literal_from(s, vars, seq![], seq![]);
    assert(Seq::<char>::empty() + s =~= s);
}

/// A part of a template scanned with command references enabled: literal
/// text (variable references already replaced), or the text captured
/// between two backticks.
pub enum Piece {
    Text(String),
    Command(String),
}

/// What a `Piece` holds, as characters.
pub enum Segment {
    Text(Seq<char>),
    Command(Seq<char>),
}

impl View for Piece {
    type V = Segment;

    open spec fn view(&self) -> Segment {
        match self {
            Piece::Text(t) => Segment::Text(t@),
            Piece::Command(c) => Segment::Command(c@),
        }
    }
}

pub open spec fn segments_of(v: Seq<Piece>) -> Seq<Segment> {
    v.map_values(|p: Piece| p@)
}

pub open spec fn views_of(v: Seq<String>) -> Seq<Seq<char>> {
    v.map_values(|s: String| s@)
}

/// The rest of a scan with command references enabled, from state `state`
/// with captured text `captured`, pending literal text `text` and finished
/// segments `done`. Each command reference closes the pending text.
pub open spec fn plan_from(
    s: Seq<char>,
    vars: Map<Seq<char>, Seq<char>>,
    state: Scan,
    captured: Seq<char>,
    text: Seq<char>,
    done: Seq<Segment>,
) -> Result<Seq<Segment>, Seq<char>>
    decreases s.len(),
{
    if s.len() == 0 {
        Ok(done.push(Segment::Text(text)))
    } else {
        let c = s[0];
        let rest = s.subrange(1, s.len() as int);
        match state {
            Scan::InVariableRef => {
                if c == '}' {
                    if vars.contains_key(captured) {
                        plan_from(rest, vars, Scan::Normal, seq![], text + vars[captured], done)
                    } else {
                        Err(captured)
                    }
                } else if c == '{' {
                    plan_from(rest, vars, Scan::Normal, seq![], text.push('{'), done)
                } else {
                    plan_from(rest, vars, Scan::InVariableRef, captured.push(c), text, done)
                }
            },
            Scan::InCommandRef => {
                if c == '`' {
                    plan_from(
                        rest,
                        vars,
                        Scan::Normal,
                        seq![],
                        seq![],
                        done.push(Segment::Text(text)).push(Segment::Command(captured)),
                    )
                } else {
                    plan_from(rest, vars, Scan::InCommandRef, captured.push(c), text, done)
                }
            },
            Scan::Normal => {
                if c == '{' {
                    plan_from(rest, vars, Scan::InVariableRef, seq![], text, done)
                } else if c == '`' {
                    plan_from(rest, vars, Scan::InCommandRef, seq![], text, done)
                } else {
                    plan_from(rest, vars, Scan::Normal, captured, text.push(c), done)
                }
            },
        }
    }
}

/// The segments of `s` with command references enabled.
pub open spec fn plan(s: Seq<char>, vars: Map<Seq<char>, Seq<char>>) -> Result<Seq<Segment>, Seq<char>> {
    plan_from(s, vars, Scan::Normal, seq![], seq![], seq![])
}

/// Scans `value` with command references enabled: replaces variable
/// references as `patch_variable_references` does and cuts the result at
/// each backtick-delimited command, whose output `assemble` later puts in
/// its place. Fails with the name of the first undefined variable.
pub fn patch_string(value: &String, variables: &VariableTable) -> (r: Result<Vec<Piece>, String>)
    requires
        variables.wf(),
    ensures
        match r {
            Ok(p) => plan(value@, variables@) == Ok::<Seq<Segment>, Seq<char>>(segments_of(p@)),
            Err(n) => plan(value@, variables@) == Err::<Seq<Segment>, Seq<char>>(n@),
        },
{
    let ghost s = value@;
    let n = value.as_str().unicode_len();
    let mut state = Scan::Normal;
    let mut captured: Vec<char> = Vec::new();
    let mut text: Vec<char> = Vec::new();
    let mut done: Vec<Piece> = Vec::new();
    let mut i: usize = 0;
    proof {
        assert(s.subrange(0, n as int) =~= s);
        assert(captured@ =~= Seq::<char>::empty());
        assert(text@ =~= Seq::<char>::empty());
        assert(segments_of(done@) =~= Seq::<Segment>::empty());
    }
    while i < n
        invariant
            n == s.len(),
            i <= n,
            value@ == s,
            variables.wf(),
            plan_from(s.subrange(i as int, n as int), variables@, state, captured@, text@, segments_of(done@))
                == plan(s, variables@),
        decreases n - i,
    {
        let c = value.as_str().get_char(i);
        proof {
            let t = s.subrange(i as int, n as int);
            assert(t[0] == c);
            assert(t.subrange(1, t.len() as int) =~= s.subrange(i + 1, n as int));
        }
        match state {
            Scan::InVariableRef => {
                if c == '}' {
                    let key = string_of(&captured);
                    match variables.get(&key) {
                        Some(v) => push_str(&mut text, v),
                        None => return Err(key),
                    }
                    state = Scan::Normal;
                    captured = Vec::new();
                } else if c == '{' {
                    text.push('{');
                    state = Scan::Normal;
                    captured = Vec::new();
                } else {
                    captured.push(c);
                }
            },
            Scan::InCommandRef => {
                if c == '`' {
                    let ghost d0 = segments_of(done@);
                    let t = string_of(&text);
                    let k = string_of(&captured);
                    done.push(Piece::Text(t));
                    done.push(Piece::Command(k));
                    proof {
                        assert(segments_of(done@) =~= d0.push(Segment::Text(text@)).push(
                            Segment::Command(captured@),
                        ));
                    }
                    state = Scan::Normal;
                    captured = Vec::new();
                    text = Vec::new();
                } else {
                    captured.push(c);
                }
            },
            Scan::Normal => {
                if c == '{' {
                    state = Scan::InVariableRef;
                    captured = Vec::new();
                } else if c == '`' {
                    state = Scan::InCommandRef;
                    captured = Vec::new();
                } else {
                    text.push(c);
                }
            },
        }
        proof {
            assert(Seq::<char>::empty() =~= seq![]);
        }
        i = i + 1;
    }
    let ghost d0 = segments_of(done@);
    let t = string_of(&text);
    done.push(Piece::Text(t));
    proof {
        assert(s.subrange(n as int, n as int).len() == 0);
        assert(segments_of(done@) =~= d0.push(Segment::Text(text@)));
    }
    Ok(done)
}

/// The text of `segs` with each command segment replaced by the output at
/// the same position of `outs`.
pub open spec fn assembled(segs: Seq<Segment>, outs: Seq<Seq<char>>) -> Seq<char>
    decreases segs.len(),
{
    if segs.len() == 0 || outs.len() == 0 {
        seq![]
    } else {
        assembled(segs.drop_last(), outs.drop_last()) + match segs.last() {
            Segment::Text(t) => t,
            Segment::Command(_) => outs.last(),
        }
    }
}

/// Joins `pieces` into one string, putting `outputs[i]`, the standard
/// output of the command of `pieces[i]`, in the place of each command
/// piece; the outputs at the positions of text pieces are not read.
pub fn assemble(pieces: &Vec<Piece>, outputs: &Vec<String>) -> (r: String)
    requires
        pieces@.len() == outputs@.len(),
    ensures
        r@ == assembled(segments_of(pieces@), views_of(outputs@)),
{
    let ghost segs = segments_of(pieces@);
    let ghost outs = views_of(outputs@);
    let mut out: Vec<char> = Vec::new();
    let mut i: usize = 0;
    while i < pieces.len()
        invariant
            pieces@.len() == outputs@.len(),
            segs == segments_of(pieces@),
            outs == views_of(outputs@),
            i <= pieces@.len(),
            out@ == assembled(segs.take(i as int), outs.take(i as int)),
        decreases pieces@.len() - i,
    {
        proof {
            assert(segs.take(i + 1).drop_last() =~= segs.take(i as int));
            assert(outs.take(i + 1).drop_last() =~= outs.take(i as int));
        }
        match &pieces[i] {
            Piece::Text(t) => push_str(&mut out, t),
            Piece::Command(_) => push_str(&mut out, &outputs[i]),
        }
        i = i + 1;
    }
    proof {
        assert(segs.take(pieces@.len() as int) =~= segs);
        assert(outs.take(pieces@.len() as int) =~= outs);
    }
    string_of(&out)
}

} // verus!
