//! Definition strings: whitespace-separated words such as `+proj=tmerc`,
//! `+inv` or `+step`, read into the list of operations they describe.
use vstd::prelude::*;

verus! {

/// Whitespace that separates the words of a definition.
pub open spec fn is_space(c: char) -> bool {
    c == ' ' || c == '\t' || c == '\n' || c == '\r'
}

/// The words of `text` read so far, and the word being read.
pub struct WordScan {
    pub done: Seq<Seq<char>>,
    pub current: Seq<char>,
}

/// Reading `text` from the left: a space ends the current word (if any), any
/// other character extends it.
pub open spec fn scan_words(text: Seq<char>) -> WordScan
    decreases text.len(),
{
    if text.len() == 0 {
        WordScan { done: seq![], current: seq![] }
    } else {
        let prev = scan_words(text.drop_last());
        let c = text.last();
        if is_space(c) {
            if prev.current.len() == 0 {
                prev
            } else {
                WordScan { done: prev.done.push(prev.current), current: seq![] }
            }
        } else {
            WordScan { done: prev.done, current: prev.current.push(c) }
        }
    }
}

/// The maximal runs of non-space characters of `text`, in order.
pub open spec fn words_of(text: Seq<char>) -> Seq<Seq<char>> {
    let s = scan_words(text);
    if s.current.len() == 0 {
        s.done
    } else {
        s.done.push(s.current)
    }
}

/// The characters of a string, in order.
pub fn chars_of(s: &str) -> (r: Vec<char>)
    ensures
        r@ == s@,
{
    let mut r: Vec<char> = Vec::new();
    for c in it: s.chars()
        invariant
            r@ == it.seq().subrange(0, it.index() as int),
            it.seq() == s@,
    {
        r.push(c);
    }
    r
}

/// Whether `c` separates words.
pub fn space(c: char) -> (r: bool)
    ensures
        r == is_space(c),
{
    c == ' ' || c == '\t' || c == '\n' || c == '\r'
}

/// Splits `text` into its words.
pub fn split_words(text: &Vec<char>) -> (r: Vec<Vec<char>>)
    ensures
        r@.map_values(|w: Vec<char>| w@) == words_of(text@),
{
    let mut done: Vec<Vec<char>> = Vec::new();
    let mut current: Vec<char> = Vec::new();
    let mut i: usize = 0;
    while i < text.len()
        invariant
            i <= text.len(),
            done@.map_values(|w: Vec<char>| w@) == scan_words(text@.subrange(0, i as int)).done,
            current@ == scan_words(text@.subrange(0, i as int)).current,
        decreases text.len() - i,
    {
        let c = text[i];
        proof {
            assert(text@.subrange(0, i + 1).drop_last() =~= text@.subrange(0, i as int));
        }
        if space(c) {
            if current.len() > 0 {
                let w = current;
                done.push(w);
                current = Vec::new();
                proof {
                    assert(done@.map_values(|w: Vec<char>| w@) =~= scan_words(
                        text@.subrange(0, i + 1),
                    ).done);
                }
            }
        } else {
            current.push(c);
        }
        i = i + 1;
    }
    proof {
        assert(text@.subrange(0, i as int) =~= text@);
    }
    if current.len() > 0 {
        done.push(current);
        proof {
            assert(done@.map_values(|w: Vec<char>| w@) =~= words_of(text@));
        }
    }
    done
}

/// A word without its optional leading `+`.
pub open spec fn word_body(w: Seq<char>) -> Seq<char> {
    if w.len() > 0 && w[0] == '+' {
        w.drop_first()
    } else {
        w
    }
}

/// Whether `w` is the flag `name` (`+inv`, `step`).
pub open spec fn is_flag(w: Seq<char>, name: Seq<char>) -> bool {
    word_body(w) == name
}

/// The value that `w` gives to `key` (`+proj=tmerc` gives `tmerc` to `proj`).
pub open spec fn value_for(w: Seq<char>, key: Seq<char>) -> Option<Seq<char>> {
    let b = word_body(w);
    if b.len() > key.len() && b.subrange(0, key.len() as int) == key && b[key.len() as int]
        == '=' {
        Some(b.subrange(key.len() + 1int, b.len() as int))
    } else {
        None
    }
}

/// One operation of a definition, as a value: its method name, if one is
/// given, and whether it is marked inverted.
pub struct OpSpec {
    pub method: Option<Seq<char>>,
    pub inverse: bool,
}

/// An operation with neither method nor inversion.
pub open spec fn blank_op() -> OpSpec {
    OpSpec { method: None, inverse: false }
}

/// The state of reading the words of a definition: the global operation, the
/// steps already closed, the operation being read, and whether a `step` flag
/// has been seen.
pub struct DefScan {
    pub global: OpSpec,
    pub closed: Seq<OpSpec>,
    pub current: OpSpec,
    pub in_steps: bool,
}

/// The effect of one word: `step` closes the operation being read and opens
/// a new one; `inv` marks the current one inverted; `proj=<m>` names its
/// method. Other words leave the state as it is.
pub open spec fn read_word(s: DefScan, w: Seq<char>) -> DefScan {
    if is_flag(w, "step"@) {
        if s.in_steps {
            DefScan { closed: s.closed.push(s.current), current: blank_op(), ..s }
        } else {
            DefScan { global: s.current, current: blank_op(), in_steps: true, ..s }
        }
    } else if is_flag(w, "inv"@) {
        DefScan { current: OpSpec { inverse: true, ..s.current }, ..s }
    } else {
        match value_for(w, "proj"@) {
            Some(m) => DefScan { current: OpSpec { method: Some(m), ..s.current }, ..s },
            None => s,
        }
    }
}

/// The state after reading all of `ws`, left to right.
pub open spec fn scan_definition(ws: Seq<Seq<char>>) -> DefScan
    decreases ws.len(),
{
    if ws.len() == 0 {
        DefScan { global: blank_op(), closed: seq![], current: blank_op(), in_steps: false }
    } else {
        read_word(scan_definition(ws.drop_last()), ws.last())
    }
}

/// What a definition describes: how many words it has, the global operation
/// and its steps (none unless the definition holds a `step` flag).
pub struct DefinitionSpec {
    pub word_count: nat,
    pub global: OpSpec,
    pub steps: Seq<OpSpec>,
}

/// The structure of the definition text `text`.
pub open spec fn definition_of(text: Seq<char>) -> DefinitionSpec {
    let s = scan_definition(words_of(text));
    if s.in_steps {
        DefinitionSpec {
            word_count: words_of(text).len(),
            global: s.global,
            steps: s.closed.push(s.current),
        }
    } else {
        DefinitionSpec { word_count: words_of(text).len(), global: s.current, steps: seq![] }
    }
}

/// One operation of a definition.
pub struct Operation {
    pub method: Option<Vec<char>>,
    pub inverse: bool,
}

impl View for Operation {
    type V = OpSpec;

    open spec fn view(&self) -> OpSpec {
        OpSpec {
            method: match self.method {
                Some(m) => Some(m@),
                None => None,
            },
            inverse: self.inverse,
        }
    }
}

impl Operation {
    /// An operation with neither method nor inversion.
    pub fn blank() -> (r: Operation)
        ensures
            r@ == blank_op(),
    {
        Operation { method: None, inverse: false }
    }
}

/// The parsed form of a definition string.
pub struct Definition {
    pub word_count: usize,
    pub global: Operation,
    pub steps: Vec<Operation>,
}

impl View for Definition {
    type V = DefinitionSpec;

    open spec fn view(&self) -> DefinitionSpec {
        DefinitionSpec {
            word_count: self.word_count as nat,
            global: self.global@,
            steps: self.steps@.map_values(|o: Operation| o@),
        }
    }
}

/// Where the body of `w` starts: after a leading `+`, if there is one.
fn body_start(w: &Vec<char>) -> (r: usize)
    ensures
        r <= w@.len(),
        w@.subrange(r as int, w@.len() as int) == word_body(w@),
{
    if w.len() > 0 && w[0] == '+' {
        proof {
            assert(w@.subrange(1, w@.len() as int) =~= w@.drop_first());
        }
        1
    } else {
        proof {
            assert(w@.subrange(0, w@.len() as int) =~= w@);
        }
        0
    }
}

/// Whether `w` holds `name` from index `start`.
pub(crate) fn same_from(w: &Vec<char>, start: usize, name: &Vec<char>) -> (r: bool)
    requires
        start + name@.len() <= w@.len(),
    ensures
        r == (w@.subrange(start as int, start + name@.len()) == name@),
{
    let n = w.len();
    let mut i: usize = 0;
    while i < name.len()
        invariant
            n == w@.len(),
            start + name@.len() <= w@.len(),
            i <= name@.len(),
            forall|j: int| 0 <= j < i ==> w@[start + j] == name@[j],
        decreases name.len() - i,
    {
        if w[start + i] != name[i] {
            proof {
                assert(w@.subrange(start as int, start + name@.len())[i as int] != name@[i as int]);
            }
            return false;
        }
        i = i + 1;
    }
    proof {
        assert(w@.subrange(start as int, start + name@.len()) =~= name@);
    }
    true
}

/// Whether `w` is the flag `name`.
pub fn word_is_flag(w: &Vec<char>, name: &Vec<char>) -> (r: bool)
    ensures
        r == is_flag(w@, name@),
{
    let start = body_start(w);
    if w.len() - start != name.len() {
        return false;
    }
    let r = same_from(w, start, name);
    proof {
        assert(w@.subrange(start as int, start + name@.len()) =~= word_body(w@));
    }
    r
}

/// The value that `w` gives to `key`, if it gives one.
pub fn word_value(w: &Vec<char>, key: &Vec<char>) -> (r: Option<Vec<char>>)
    ensures
        match r {
            Some(v) => value_for(w@, key@) == Some(v@),
            None => value_for(w@, key@) is None,
        },
{
    let start = body_start(w);
    let ghost b = word_body(w@);
    assert(b =~= w@.subrange(start as int, w@.len() as int));
    if w.len() - start <= key.len() {
        return None;
    }
    let eq_at = start + key.len();
    if !same_from(w, start, key) || w[eq_at] != '=' {
        proof {
            assert(b.subrange(0, key@.len() as int) =~= w@.subrange(
                start as int,
                start + key@.len(),
            ));
        }
        return None;
    }
    proof {
        assert(b.subrange(0, key@.len() as int) =~= w@.subrange(start as int, start + key@.len()));
    }
    let mut v: Vec<char> = Vec::new();
    let mut i: usize = eq_at + 1;
    while i < w.len()
        invariant
            eq_at + 1 <= i <= w@.len(),
            v@ == w@.subrange(eq_at + 1, i as int),
        decreases w.len() - i,
    {
        v.push(w[i]);
        proof {
            assert(v@ =~= w@.subrange(eq_at + 1, i + 1));
        }
        i = i + 1;
    }
    proof {
        assert(v@ =~= b.subrange(key@.len() + 1int, b.len() as int));
    }
    Some(v)
}

/// Reads a definition string: its words, split into the global operation and
/// the steps that follow each `step` flag.
pub fn parse_definition(text: &str) -> (r: Definition)
    ensures
        r@ == definition_of(text@),
{
    let chars = chars_of(text);
    let words = split_words(&chars);
    let ghost ws = words@.map_values(|w: Vec<char>| w@);
    let step_name = chars_of("step");
    let inv_name = chars_of("inv");
    let proj_name = chars_of("proj");
    let mut global = Operation::blank();
    let mut closed: Vec<Operation> = Vec::new();
    let mut current = Operation::blank();
    let mut in_steps = false;
    let mut i: usize = 0;
    proof {
        assert(closed@.map_values(|o: Operation| o@) =~= Seq::<OpSpec>::empty());
        assert(ws.subrange(0, 0) =~= Seq::<Seq<char>>::empty());
    }
    while i < words.len()
        invariant
            i <= words@.len(),
            !in_steps ==> closed@.len() == 0,
            ws == words@.map_values(|w: Vec<char>| w@),
            step_name@ == "step"@,
            inv_name@ == "inv"@,
            proj_name@ == "proj"@,
            scan_definition(ws.subrange(0, i as int)) == (DefScan {
                global: global@,
                closed: closed@.map_values(|o: Operation| o@),
                current: current@,
                in_steps,
            }),
        decreases words.len() - i,
    {
        let w = &words[i];
        let ghost before = DefScan {
            global: global@,
            closed: closed@.map_values(|o: Operation| o@),
            current: current@,
            in_steps,
        };
        proof {
            assert(ws.subrange(0, i + 1).drop_last() =~= ws.subrange(0, i as int));
            assert(ws.subrange(0, i + 1).last() == w@);
        }
        if word_is_flag(w, &step_name) {
            if in_steps {
                closed.push(current);
                proof {
                    let ghost prev = closed@.drop_last().map_values(|o: Operation| o@);
                    assert(closed@.map_values(|o: Operation| o@) =~= prev.push(
                        closed@.last()@,
                    ));
                }
            } else {
                global = current;
                in_steps = true;
            }
            current = Operation::blank();
        } else if word_is_flag(w, &inv_name) {
            current.inverse = true;
        } else {
            match word_value(w, &proj_name) {
                Some(m) => {
                    current.method = Some(m);
                },
                None => {},
            }
        }
        proof {
            assert(read_word(before, w@).closed =~= closed@.map_values(|o: Operation| o@));
        }
        i = i + 1;
    }
    proof {
        assert(ws.subrange(0, i as int) =~= ws);
    }
    if in_steps {
        closed.push(current);
        proof {
            let ghost prev = closed@.drop_last().map_values(|o: Operation| o@);
            assert(closed@.map_values(|o: Operation| o@) =~= prev.push(closed@.last()@));
        }
        let r = Definition { word_count: words.len(), global, steps: closed };
        assert(r@.steps =~= definition_of(text@).steps);
        r
    } else {
        let r = Definition { word_count: words.len(), global: current, steps: Vec::new() };
        assert(r@.steps =~= definition_of(text@).steps);
        r
    }
}

} // verus!
