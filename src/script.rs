use vstd::prelude::*;
use vstd::string::StringSliceAdditionalSpecFns;
use vstd::utf8::encode_utf8;

verus! {

/// The bytes that bash reads back as exactly `s`.
pub uninterp spec fn bash_escaped(s: Seq<char>) -> Seq<u8>;

/// Relies on shell_quote::bash::escape: `s` unchanged when every byte is safe
/// in bash, otherwise `s` in `$'...'` notation; either way bash reads it back
/// as the text it was given.
#[verifier::external_body]
fn bash_escape(s: &str) -> (r: Vec<u8>)
    ensures
        r@ == bash_escaped(s@),
{
    shell_quote::bash::escape(s)
}

/// The byte between words of a command line.
pub const SPACE: u8 = 32;

/// The byte between a variable's name and its value.
pub const EQUALS: u8 = 61;

/// Words joined by single spaces.
pub open spec fn joined(ws: Seq<Seq<u8>>) -> Seq<u8>
    decreases ws.len(),
{
    if ws.len() == 0 {
        seq![]
    } else if ws.len() == 1 {
        ws[0]
    } else {
        joined(ws.drop_last()) + seq![SPACE] + ws.last()
    }
}

/// The opening of the script, up to the environment assignments.
pub open spec fn script_head() -> Seq<u8> {
    encode_utf8("#!/bin/bash\n# Runs the same process again, in its preserved sandbox.\nexport "@)
}

/// What stands between the assignments and the directory to enter.
pub open spec fn script_cd() -> Seq<u8> {
    encode_utf8("\n\ncd "@)
}

/// What stands between the directory and the command line.
pub open spec fn script_gap() -> Seq<u8> {
    encode_utf8("\n\n"@)
}

/// The end of the script.
pub open spec fn script_end() -> Seq<u8> {
    encode_utf8("\n"@)
}

/// A reproduction script: it exports each assignment, enters the working
/// directory and runs the command line, each piece already quoted.
pub open spec fn script_of(assignments: Seq<Seq<u8>>, cwd: Seq<u8>, words: Seq<Seq<u8>>) -> Seq<
    u8,
> {
    script_head() + joined(assignments) + script_cd() + cwd + script_gap() + joined(words)
        + script_end()
}

/// The assignment `name=value`.
pub open spec fn assignment_of(name: Seq<u8>, quoted_value: Seq<u8>) -> Seq<u8> {
    name + seq![EQUALS] + quoted_value
}

/// The quoted assignments of an environment, in order.
pub open spec fn assignments_of(env: Seq<(String, String)>) -> Seq<Seq<u8>> {
    env.map_values(
        |kv: (String, String)| assignment_of(encode_utf8(kv.0@), bash_escaped(kv.1@)),
    )
}

/// The quoted words of a command line.
pub open spec fn words_of(argv: Seq<String>) -> Seq<Seq<u8>> {
    argv.map_values(|a: String| bash_escaped(a@))
}

fn push_bytes(out: &mut Vec<u8>, b: &[u8])
    ensures
        final(out)@ == old(out)@ + b@,
{
    let mut i: usize = 0;
    while i < b.len()
        invariant
            i <= b@.len(),
            out@ == old(out)@ + b@.take(i as int),
        decreases b.len() - i,
    {
        out.push(b[i]);
        assert(b@.take(i + 1) =~= b@.take(i as int).push(b@[i as int]));
        i = i + 1;
    }
    assert(b@.take(b@.len() as int) =~= b@);
}

fn push_joined(out: &mut Vec<u8>, ws: &Vec<Vec<u8>>)
    ensures
        final(out)@ == old(out)@ + joined(ws@.map_values(|w: Vec<u8>| w@)),
{
    let ghost views = ws@.map_values(|w: Vec<u8>| w@);
    let mut k: usize = 0;
    while k < ws.len()
        invariant
            views == ws@.map_values(|w: Vec<u8>| w@),
            k <= ws@.len(),
            out@ == old(out)@ + joined(views.take(k as int)),
        decreases ws.len() - k,
    {
        assert(views.take(k + 1).drop_last() =~= views.take(k as int));
        if k > 0 {
            out.push(SPACE);
        }
        push_bytes(out, ws[k].as_slice());
        assert(out@ =~= old(out)@ + joined(views.take(k + 1)));
        k = k + 1;
    }
    assert(views.take(ws@.len() as int) =~= views);
}

/// Lays out a reproduction script from pieces that are already quoted.
pub fn render_run_script(assignments: &Vec<Vec<u8>>, cwd: &Vec<u8>, words: &Vec<Vec<u8>>) -> (r:
    Vec<u8>)
    ensures
        r@ == script_of(
            assignments@.map_values(|w: Vec<u8>| w@),
            cwd@,
            words@.map_values(|w: Vec<u8>| w@),
        ),
{
    let mut out: Vec<u8> = Vec::new();
    push_bytes(
        &mut out,
        "#!/bin/bash\n# Runs the same process again, in its preserved sandbox.\nexport ".as_bytes(),
    );
    push_joined(&mut out, assignments);
    push_bytes(&mut out, "\n\ncd ".as_bytes());
    push_bytes(&mut out, cwd.as_slice());
    push_bytes(&mut out, "\n\n".as_bytes());
    push_joined(&mut out, words);
    push_bytes(&mut out, "\n".as_bytes());
    out
}

/// Writes the script that reruns a process from its preserved sandbox: it
/// exports the declared environment, enters `cwd` and runs `argv`, each value
/// quoted for bash.
pub fn run_script(argv: &Vec<String>, env: &Vec<(String, String)>, cwd: &str) -> (r: Vec<u8>)
    ensures
        r@ == script_of(assignments_of(env@), bash_escaped(cwd@), words_of(argv@)),
{
    let mut assignments: Vec<Vec<u8>> = Vec::new();
    let mut k: usize = 0;
    while k < env.len()
        invariant
            k <= env@.len(),
            assignments@.map_values(|w: Vec<u8>| w@) == assignments_of(env@).take(k as int),
        decreases env.len() - k,
    {
        let ghost before = assignments@.map_values(|w: Vec<u8>| w@);
        let mut a: Vec<u8> = Vec::new();
        push_bytes(&mut a, env[k].0.as_str().as_bytes());
        a.push(EQUALS);
        let quoted = bash_escape(env[k].1.as_str());
        push_bytes(&mut a, quoted.as_slice());
        assert(a@ =~= assignment_of(encode_utf8(env@[k as int].0@), bash_escaped(env@[k as int].1@)));
        assignments.push(a);
        assert(assignments@.map_values(|w: Vec<u8>| w@) =~= before.push(
            assignment_of(encode_utf8(env@[k as int].0@), bash_escaped(env@[k as int].1@)),
        ));
        assert(assignments_of(env@).take(k + 1) =~= assignments_of(env@).take(k as int).push(
            assignments_of(env@)[k as int],
        ));
        k = k + 1;
    }
    assert(assignments_of(env@).take(env@.len() as int) =~= assignments_of(env@));
    let mut words: Vec<Vec<u8>> = Vec::new();
    let mut k: usize = 0;
    while k < argv.len()
        invariant
            k <= argv@.len(),
            words@.map_values(|w: Vec<u8>| w@) == words_of(argv@).take(k as int),
        decreases argv.len() - k,
    {
        let ghost before = words@.map_values(|w: Vec<u8>| w@);
        words.push(bash_escape(argv[k].as_str()));
        assert(words@.map_values(|w: Vec<u8>| w@) =~= before.push(bash_escaped(argv@[k as int]@)));
        assert(words_of(argv@).take(k + 1) =~= words_of(argv@).take(k as int).push(
            words_of(argv@)[k as int],
        ));
        k = k + 1;
    }
    assert(words_of(argv@).take(argv@.len() as int) =~= words_of(argv@));
    let quoted_cwd = bash_escape(cwd);
    render_run_script(&assignments, &quoted_cwd, &words)
}

/// `part` stands in `whole` as one contiguous run of bytes.
pub open spec fn contains_run(whole: Seq<u8>, part: Seq<u8>) -> bool {
    exists|off: int|
        0 <= off && off + part.len() <= whole.len() && #[trigger] whole.subrange(
            off,
            off + part.len(),
        ) == part
}

/// Each word of a joined line stands in it.
pub proof fn lemma_joined_contains(ws: Seq<Seq<u8>>, i: int)
    requires
        0 <= i < ws.len(),
    ensures
        contains_run(joined(ws), ws[i]),
    decreases ws.len(),
{
    let j = joined(ws);
    if ws.len() == 1 {
        let off: int = 0;
        assert(j.subrange(off, off + ws[i].len()) =~= ws[i]);
    } else if i == ws.len() - 1 {
        let off = joined(ws.drop_last()).len() as int + 1;
        assert(j.subrange(off, off + ws[i].len()) =~= ws[i]);
    } else {
        lemma_joined_contains(ws.drop_last(), i);
        let p = joined(ws.drop_last());
        let off = choose|off: int|
            0 <= off && off + ws[i].len() <= p.len() && #[trigger] p.subrange(
                off,
                off + ws[i].len(),
            ) == ws.drop_last()[i];
        assert(j.subrange(off, off + ws[i].len()) =~= p.subrange(off, off + ws[i].len()));
    }
}

/// A run inside the middle piece of a concatenation stands in the whole.
proof fn lemma_run_in_middle(a: Seq<u8>, m: Seq<u8>, z: Seq<u8>, part: Seq<u8>)
    requires
        contains_run(m, part),
    ensures
        contains_run(a + m + z, part),
{
    let off = choose|off: int|
        0 <= off && off + part.len() <= m.len() && #[trigger] m.subrange(off, off + part.len())
            == part;
    let w = a + m + z;
    assert(w.subrange(a.len() + off, a.len() + off + part.len()) =~= part);
}

/// A reproduction script holds the whole quoted command line, and with it
/// every quoted argument.
pub proof fn lemma_script_holds_command_line(
    argv: Seq<String>,
    env: Seq<(String, String)>,
    cwd: Seq<char>,
    i: int,
)
    requires
        0 <= i < argv.len(),
    ensures
        contains_run(
            script_of(assignments_of(env), bash_escaped(cwd), words_of(argv)),
            joined(words_of(argv)),
        ),
        contains_run(
            script_of(assignments_of(env), bash_escaped(cwd), words_of(argv)),
            bash_escaped(argv[i]@),
        ),
{
    let words = words_of(argv);
    let a = script_head() + joined(assignments_of(env)) + script_cd() + bash_escaped(cwd)
        + script_gap();
    let line = joined(words);
    let off: int = 0;
    assert(line.subrange(off, off + line.len()) =~= line);
    lemma_run_in_middle(a, line, script_end(), line);
    lemma_joined_contains(words, i);
    lemma_run_in_middle(a, line, script_end(), words[i]);
    assert(script_of(assignments_of(env), bash_escaped(cwd), words) =~= a + line + script_end());
}

} // verus!
