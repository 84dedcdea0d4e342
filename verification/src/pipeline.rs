use crate::command::{parsed, split_first, CommandView};
use crate::input_line::{rendered, InputLine};
use crate::text::{chars_of, join, joined, views};
use crate::tokenizer::{trim_bounds, words, EmptyInputError};
use vstd::prelude::*;

verus! {

/// The pieces of a line between its pipe characters, in order. A line with
/// `n` pipe characters has `n + 1` pieces, some of them perhaps empty.
/// Quotes are not looked at: a pipe character inside quotes parts the line
/// like any other.
pub open spec fn segments(s: Seq<char>) -> Seq<Seq<char>>
    decreases s.len(),
{
    if s.len() == 0 {
        seq![Seq::<char>::empty()]
    } else {
        let before = segments(s.drop_last());
        if s.last() == '|' {
            before.push(Seq::<char>::empty())
        } else {
            before.drop_last().push(before.last().push(s.last()))
        }
    }
}

/// The stages of the given pieces, where each piece holds a word.
pub open spec fn stages_of(pieces: Seq<Seq<char>>) -> Seq<CommandView> {
    pieces.map_values(|g: Seq<char>| parsed(g).unwrap())
}

/// Whether each of the pieces holds a word.
pub open spec fn all_stages(pieces: Seq<Seq<char>>) -> bool {
    forall|i: int| 0 <= i < pieces.len() ==> (#[trigger] parsed(pieces[i])) is Some
}

/// The stages of a command line, one for each piece between pipe
/// characters. A line with a piece that holds no word has no stages.
pub open spec fn pipeline_of(line: Seq<char>) -> Option<Seq<CommandView>> {
    if all_stages(segments(line)) {
        Some(stages_of(segments(line)))
    } else {
        None
    }
}

/// The views of a sequence of stages.
pub open spec fn stage_views(stages: Seq<InputLine>) -> Seq<CommandView> {
    stages.map_values(|stage: InputLine| stage@)
}

/// The text that names a pipeline in a report: its stages written out, with
/// a pipe character between spaces from one to the next.
pub open spec fn label_of(stages: Seq<CommandView>) -> Seq<char> {
    joined(stages.map_values(|stage: CommandView| rendered(stage)), seq![' ', '|', ' '])
}

/// Every line has at least one piece.
pub proof fn lemma_segments_nonempty(s: Seq<char>)
    ensures
        segments(s).len() >= 1,
    decreases s.len(),
{
    if s.len() > 0 {
        lemma_segments_nonempty(s.drop_last());
    }
}

/// Joining the pieces of a line with pipe characters gives the line back,
/// and no piece holds a pipe character.
pub proof fn lemma_segments_rejoin(s: Seq<char>)
    ensures
        joined(segments(s), seq!['|']) == s,
        forall|k: int, i: int|
            0 <= k < segments(s).len() && 0 <= i < segments(s)[k].len() ==> segments(s)[k][i]
                != '|',
    decreases s.len(),
{
    let bar = seq!['|'];
    if s.len() == 0 {
        assert(joined(segments(s), bar) =~= s);
    } else {
        let before = segments(s.drop_last());
        lemma_segments_rejoin(s.drop_last());
        lemma_segments_nonempty(s.drop_last());
        let c = s.last();
        assert(s.drop_last().push(c) =~= s);
        if c == '|' {
            let now = before.push(Seq::<char>::empty());
            assert(now.drop_last() =~= before);
            assert(joined(now, bar) =~= s);
        } else {
            let now = before.drop_last().push(before.last().push(c));
            assert(now.drop_last() =~= before.drop_last());
            if before.len() == 1 {
                assert(joined(before, bar) == before[0]);
                assert(joined(now, bar) =~= s);
            } else {
                assert(joined(now, bar) =~= joined(before, bar).push(c));
            }
        }
    }
}

/// The pieces of a line that a pipe character has closed stay as they are
/// when the line goes on.
proof fn lemma_segments_prefix(s: Seq<char>, j: int)
    requires
        0 <= j <= s.len(),
    ensures
        segments(s.take(j)).len() <= segments(s).len(),
        forall|k: int|
            0 <= k < segments(s.take(j)).len() - 1 ==> segments(s.take(j))[k] == segments(s)[k],
    decreases s.len() - j,
{
    if j < s.len() {
        lemma_segments_prefix(s, j + 1);
        lemma_segments_nonempty(s.take(j));
        assert(s.take(j + 1).drop_last() =~= s.take(j));
    } else {
        assert(s.take(j) =~= s);
    }
}

/// An ordered chain of stages, the output of each the input of the next.
/// A pipeline has at least one stage.
#[derive(Debug)]
pub struct Pipeline {
    stages: Vec<InputLine>,
}

impl View for Pipeline {
    type V = Seq<CommandView>;

    closed spec fn view(&self) -> Seq<CommandView> {
        stage_views(self.stages@)
    }
}

impl Pipeline {
    #[verifier::type_invariant]
    spec fn has_stage(self) -> bool {
        self.stages@.len() >= 1
    }

    /// A pipeline of the given stages, if there are any.
    pub fn new(stages: Vec<InputLine>) -> (r: Option<Pipeline>)
        ensures
            r is Some <==> stages.len() > 0,
            r matches Some(p) ==> p@ == stage_views(stages@),
    {
        if stages.len() == 0 {
            None
        } else {
            Some(Pipeline { stages })
        }
    }

    /// The number of stages, which is at least one.
    pub fn len(&self) -> (n: usize)
        ensures
            n == self@.len(),
            n >= 1,
    {
        proof {
            use_type_invariant(self);
        }
        self.stages.len()
    }

    /// The stage at position `i`.
    pub fn stage(&self, i: usize) -> (r: &InputLine)
        requires
            i < self@.len(),
        ensures
            r@ == self@[i as int],
    {
        &self.stages[i]
    }

    /// The text that names the pipeline in a report.
    pub fn label(&self) -> (r: String)
        ensures
            r@ == label_of(self@),
    {
        command_label(&self.stages)
    }
}

/// The stages written out, with a pipe character between spaces from one to
/// the next.
pub fn command_label(commands: &Vec<InputLine>) -> (r: String)
    ensures
        r@ == label_of(stage_views(commands@)),
{
    let ghost want = stage_views(commands@).map_values(|stage: CommandView| rendered(stage));
    let mut parts: Vec<String> = Vec::new();
    let mut i: usize = 0;
    while i < commands.len()
        invariant
            i <= commands.len(),
            want == stage_views(commands@).map_values(|stage: CommandView| rendered(stage)),
            views(parts@) == want.take(i as int),
        decreases commands.len() - i,
    {
        let ghost before = views(parts@);
        let part = commands[i].duplicate().to_string();
        parts.push(part);
        proof {
            assert(views(parts@) =~= before.push(part@));
            assert(want.take(i + 1) =~= want.take(i as int).push(want[i as int]));
        }
        i = i + 1;
    }
    proof {
        assert(want.take(i as int) =~= want);
        reveal_strlit(" | ");
        assert(" | "@ =~= seq![' ', '|', ' ']);
    }
    join(&parts, " | ")
}

/// The stage that `v[from..to]` holds, if it holds a word.
fn stage_from(v: &Vec<char>, from: usize, to: usize) -> (r: Option<InputLine>)
    requires
        from <= to <= v.len(),
    ensures
        r is Some <==> parsed(v@.subrange(from as int, to as int)) is Some,
        r matches Some(stage) ==> parsed(v@.subrange(from as int, to as int)) == Some(stage@),
{
    let (a, b) = trim_bounds(v, from, to);
    let tokens = words(v, a, b);
    if tokens.len() == 0 {
        proof {
            assert(views(tokens@).len() == 0);
        }
        None
    } else {
        proof {
            assert(views(tokens@).len() == tokens.len());
        }
        let (name, args) = split_first(tokens);
        Some(InputLine { name, args })
    }
}

/// Reads a command line: parts it at each pipe character and reads one
/// stage from each piece. A piece without a word makes the whole line an
/// error.
pub fn parse_pipeline(line: &str) -> (r: Result<Pipeline, EmptyInputError>)
    ensures
        r is Ok <==> pipeline_of(line@) is Some,
        r matches Ok(p) ==> pipeline_of(line@) == Some(p@),
{
    let v = chars_of(line);
    let ghost s = v@;
    let mut stages: Vec<InputLine> = Vec::new();
    let ghost mut closed: Seq<Seq<char>> = Seq::empty();
    let mut start: usize = 0;
    let mut i: usize = 0;
    proof {
        assert(s.take(0) =~= Seq::<char>::empty());
        assert(s.subrange(0, 0) =~= Seq::<char>::empty());
        assert(segments(s.take(0)) =~= closed.push(s.subrange(0, 0)));
        assert(stage_views(stages@) =~= stages_of(closed));
    }
    while i < v.len()
        invariant
            start <= i <= v.len(),
            s == v@,
            s == line@,
            segments(s.take(i as int)) == closed.push(s.subrange(start as int, i as int)),
            all_stages(closed),
            stage_views(stages@) == stages_of(closed),
        decreases v.len() - i,
    {
        let ghost piece = s.subrange(start as int, i as int);
        proof {
            assert(s.take(i + 1).drop_last() =~= s.take(i as int));
            assert(s.take(i + 1).last() == s[i as int]);
            assert(closed.push(piece).drop_last() =~= closed);
        }
        if v[i] == '|' {
            let ghost before = stage_views(stages@);
            match stage_from(&v, start, i) {
                Some(stage) => {
                    stages.push(stage);
                    proof {
                        assert(stage_views(stages@) =~= before.push(stage@));
                        assert(stages_of(closed.push(piece)) =~= stages_of(closed).push(stage@));
                        assert forall|k: int| 0 <= k < closed.push(piece).len() implies (
                        #[trigger] parsed(closed.push(piece)[k])) is Some by {
                            if k < closed.len() {
                                assert(closed.push(piece)[k] == closed[k]);
                            }
                        }
                        closed = closed.push(piece);
                        assert(s.subrange(i + 1, i + 1) =~= Seq::<char>::empty());
                    }
                },
                None => {
                    proof {
                        lemma_segments_prefix(s, i + 1);
                        let here = segments(s.take(i + 1));
                        assert(here == closed.push(piece).push(Seq::<char>::empty()));
                        assert(here[closed.len() as int] == piece);
                        assert(segments(s)[closed.len() as int] == piece);
                        assert(!all_stages(segments(s)));
                    }
                    return Err(EmptyInputError);
                },
            }
            start = i + 1;
        } else {
            proof {
                assert(s.subrange(start as int, i + 1) =~= piece.push(s[i as int]));
            }
        }
        i = i + 1;
    }
    let ghost piece = s.subrange(start as int, i as int);
    let ghost before = stage_views(stages@);
    proof {
        assert(s.take(i as int) =~= s);
    }
    match stage_from(&v, start, i) {
        Some(stage) => {
            stages.push(stage);
            proof {
                assert(stage_views(stages@) =~= before.push(stage@));
                assert(stages_of(closed.push(piece)) =~= stages_of(closed).push(stage@));
                assert forall|k: int| 0 <= k < closed.push(piece).len() implies (
                #[trigger] parsed(closed.push(piece)[k])) is Some by {
                    if k < closed.len() {
                        assert(closed.push(piece)[k] == closed[k]);
                    }
                }
            }
            Ok(Pipeline { stages })
        },
        None => {
            proof {
                assert(segments(s)[closed.len() as int] == piece);
                assert(!all_stages(segments(s)));
            }
            Err(EmptyInputError)
        },
    }
}

} // verus!
