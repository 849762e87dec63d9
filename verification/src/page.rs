//! A page of metrics in the Prometheus text exposition format.

use vstd::prelude::*;

use crate::text::{integer_text, push_integer};

verus! {

/// One line of a metric family: what stands between the family's name and the
/// space, and the value behind it.
#[verifier::ext_equal]
pub struct Sample {
    pub suffix: Seq<char>,
    pub value: int,
}

/// A metric family: its name, its help text, its kind and its samples.
#[verifier::ext_equal]
pub struct Family {
    pub name: Seq<char>,
    pub help: Seq<char>,
    pub kind: Seq<char>,
    pub samples: Seq<Sample>,
}

/// The line of `sample` in the family `name`.
pub open spec fn sample_text(name: Seq<char>, sample: Sample) -> Seq<char> {
    name + sample.suffix + " "@ + integer_text(sample.value) + "\n"@
}

/// The lines of `samples` in the family `name`.
pub open spec fn samples_text(name: Seq<char>, samples: Seq<Sample>) -> Seq<char>
    decreases samples.len(),
{
    if samples.len() == 0 {
        seq![]
    } else {
        samples_text(name, samples.drop_last()) + sample_text(name, samples.last())
    }
}

/// The lines of `family`: help, type, samples.
pub open spec fn family_text(family: Family) -> Seq<char> {
    "# HELP "@ + family.name + " "@ + family.help + "\n# TYPE "@ + family.name + " "@ + family.kind
        + "\n"@ + samples_text(family.name, family.samples)
}

/// The text of a page: its families one after the other.
pub open spec fn page_text(families: Seq<Family>) -> Seq<char>
    decreases families.len(),
{
    if families.len() == 0 {
        seq![]
    } else {
        page_text(families.drop_last()) + family_text(families.last())
    }
}

/// `families` with one more sample in the last one.
pub open spec fn with_sample(families: Seq<Family>, sample: Sample) -> Seq<Family> {
    families.drop_last().push(
        Family { samples: families.last().samples.push(sample), ..families.last() },
    )
}

/// A page under construction. Its view is the families on it.
pub struct Page {
    text: String,
    families: Ghost<Seq<Family>>,
}

impl View for Page {
    type V = Seq<Family>;

    closed spec fn view(&self) -> Seq<Family> {
        self.families@
    }
}

impl Page {
    /// The text on the page is the text of its families.
    pub closed spec fn wf(&self) -> bool {
        self.text@ == page_text(self.families@)
    }

    /// An empty page.
    pub fn new() -> (page: Page)
        ensures
            page.wf(),
            page@ == Seq::<Family>::empty(),
    {
        Page { text: String::new(), families: Ghost(Seq::empty()) }
    }

    /// Opens a family without samples.
    pub fn family(&mut self, name: &str, help: &str, kind: &str)
        requires
            old(self).wf(),
        ensures
            final(self).wf(),
            final(self)@ == old(self)@.push(
                Family { name: name@, help: help@, kind: kind@, samples: seq![] },
            ),
    {
        let ghost family = Family { name: name@, help: help@, kind: kind@, samples: seq![] };
        self.text.append("# HELP ");
        self.text.append(name);
        self.text.append(" ");
        self.text.append(help);
        self.text.append("\n# TYPE ");
        self.text.append(name);
        self.text.append(" ");
        self.text.append(kind);
        self.text.append("\n");
        proof {
            assert(self.text@ =~= old(self).text@ + family_text(family));
            assert(old(self)@.push(family).drop_last() =~= old(self)@);
            self.families@ = self.families@.push(family);
        }
    }

    /// Adds a sample to the last family, whose name is `name`.
    pub fn sample(&mut self, name: &str, suffix: &str, value: i128)
        requires
            old(self).wf(),
            old(self)@.len() > 0,
            old(self)@.last().name == name@,
        ensures
            final(self).wf(),
            final(self)@ == with_sample(
                old(self)@,
                Sample { suffix: suffix@, value: value as int },
            ),
    {
        let ghost sample = Sample { suffix: suffix@, value: value as int };
        self.text.append(name);
        self.text.append(suffix);
        self.text.append(" ");
        push_integer(&mut self.text, value);
        self.text.append("\n");
        proof {
            assert(self.text@ =~= old(self).text@ + sample_text(name@, sample));
            lemma_page_with_sample(old(self)@, sample);
            self.families@ = with_sample(self.families@, sample);
        }
    }

    /// The text of the page.
    pub fn into_text(self) -> (text: String)
        requires
            self.wf(),
        ensures
            text@ == page_text(self@),
    {
        self.text
    }
}

/// One more sample in the last family is one more line at the end of the page.
proof fn lemma_page_with_sample(families: Seq<Family>, sample: Sample)
    requires
        families.len() > 0,
    ensures
        page_text(with_sample(families, sample)) == page_text(families) + sample_text(
            families.last().name,
            sample,
        ),
{
    let front = families.drop_last();
    let last = families.last();
    let longer = last.samples.push(sample);
    assert(longer.drop_last() =~= last.samples);
    assert(with_sample(families, sample).drop_last() =~= front);
    let line = sample_text(last.name, sample);
    assert(family_text(Family { samples: longer, ..last }) =~= family_text(last) + line);
    assert(page_text(front) + (family_text(last) + line) =~= page_text(front) + family_text(last)
        + line);
}

/// A page that is not empty ends with a line break, so every line on it is
/// complete.
pub proof fn law_page_ends_with_a_line_break(families: Seq<Family>)
    requires
        families.len() > 0,
    ensures
        page_text(families).len() > 0,
        page_text(families).last() == '\n',
{
    reveal_strlit("\n");
    let family = families.last();
    let samples = family.samples;
    if samples.len() > 0 {
        let line = sample_text(family.name, samples.last());
        assert(line.last() == '\n');
        assert(samples_text(family.name, samples).last() == '\n');
    }
    assert(family_text(family).last() == '\n');
}

/// `line` is a whole line of `text`, with `front` before it and `back` behind
/// its line break.
pub open spec fn line_between(
    text: Seq<char>,
    front: Seq<char>,
    line: Seq<char>,
    back: Seq<char>,
) -> bool {
    &&& text == front + line + "\n"@ + back
    &&& front.len() == 0 || front.last() == '\n'
}

/// `line` is a whole line of `text`.
pub open spec fn has_line(text: Seq<char>, line: Seq<char>) -> bool {
    exists|front: Seq<char>, back: Seq<char>| #[trigger] line_between(text, front, line, back)
}

/// A line stays a line when text is added behind whole lines or at the end.
proof fn lemma_line_stays(before: Seq<char>, text: Seq<char>, after: Seq<char>, line: Seq<char>)
    requires
        has_line(text, line),
        before.len() == 0 || before.last() == '\n',
    ensures
        has_line(before + text + after, line),
{
    let (front, back) = choose|front: Seq<char>, back: Seq<char>| #[trigger]
        line_between(text, front, line, back);
    assert(before + text + after =~= (before + front) + line + "\n"@ + (back + after));
    assert(line_between(before + text + after, before + front, line, back + after));
}

/// The lines of samples are complete.
proof fn lemma_samples_end_with_a_line_break(name: Seq<char>, samples: Seq<Sample>)
    ensures
        samples.len() > 0 ==> samples_text(name, samples).len() > 0 && samples_text(
            name,
            samples,
        ).last() == '\n',
{
    reveal_strlit("\n");
    if samples.len() > 0 {
        assert(sample_text(name, samples.last()).last() == '\n');
    }
}

proof fn lemma_sample_is_a_line_of_its_family(name: Seq<char>, samples: Seq<Sample>, j: int)
    requires
        0 <= j < samples.len(),
    ensures
        has_line(
            samples_text(name, samples),
            name + samples[j].suffix + " "@ + integer_text(samples[j].value),
        ),
    decreases samples.len(),
{
    let line = name + samples[j].suffix + " "@ + integer_text(samples[j].value);
    let front = samples.drop_last();
    let text = samples_text(name, samples);
    let earlier = samples_text(name, front);
    lemma_samples_end_with_a_line_break(name, front);
    if j == samples.len() - 1 {
        assert(text =~= earlier + line + "\n"@ + seq![]);
        assert(line_between(text, earlier, line, seq![]));
    } else {
        lemma_sample_is_a_line_of_its_family(name, front, j);
        let last = sample_text(name, samples.last());
        lemma_line_stays(seq![], earlier, last, line);
        assert(seq![] + earlier + last =~= text);
    }
}

/// A line of one family is a line of the page.
proof fn lemma_family_line_is_on_the_page(families: Seq<Family>, i: int, line: Seq<char>)
    requires
        0 <= i < families.len(),
        has_line(family_text(families[i]), line),
    ensures
        has_line(page_text(families), line),
    decreases families.len(),
{
    let front = families.drop_last();
    let last = family_text(families.last());
    if front.len() > 0 {
        law_page_ends_with_a_line_break(front);
    }
    if i == families.len() - 1 {
        lemma_line_stays(page_text(front), last, seq![], line);
        assert(page_text(front) + last + seq![] =~= page_text(families));
    } else {
        lemma_family_line_is_on_the_page(front, i, line);
        lemma_line_stays(seq![], page_text(front), last, line);
        assert(seq![] + page_text(front) + last =~= page_text(families));
    }
}

/// Every sample of every family is a whole line of the page: the family's
/// name, the sample's suffix, a space and the value in decimal.
pub proof fn law_every_sample_is_a_line(families: Seq<Family>, i: int, j: int)
    requires
        0 <= i < families.len(),
        0 <= j < families[i].samples.len(),
    ensures
        has_line(
            page_text(families),
            families[i].name + families[i].samples[j].suffix + " "@ + integer_text(
                families[i].samples[j].value,
            ),
        ),
{
    let family = families[i];
    let line = family.name + family.samples[j].suffix + " "@ + integer_text(
        family.samples[j].value,
    );
    let header = "# HELP "@ + family.name + " "@ + family.help + "\n# TYPE "@ + family.name + " "@
        + family.kind + "\n"@;
    let lines = samples_text(family.name, family.samples);
    reveal_strlit("\n");
    lemma_sample_is_a_line_of_its_family(family.name, family.samples, j);
    lemma_line_stays(header, lines, seq![], line);
    assert(header + lines + seq![] =~= family_text(family));
    lemma_family_line_is_on_the_page(families, i, line);
}

/// Every family is announced by two whole lines of the page: its help text and
/// its kind.
pub proof fn law_every_family_is_announced(families: Seq<Family>, i: int)
    requires
        0 <= i < families.len(),
    ensures
        has_line(
            page_text(families),
            "# HELP "@ + families[i].name + " "@ + families[i].help,
        ),
        has_line(
            page_text(families),
            "# TYPE "@ + families[i].name + " "@ + families[i].kind,
        ),
{
    let family = families[i];
    let text = family_text(family);
    let lines = samples_text(family.name, family.samples);
    let help = "# HELP "@ + family.name + " "@ + family.help;
    let kind = "# TYPE "@ + family.name + " "@ + family.kind;
    reveal_strlit("\n");
    reveal_strlit("# TYPE ");
    reveal_strlit("\n# TYPE ");
    assert("\n# TYPE "@ =~= "\n"@ + "# TYPE "@);
    assert(text =~= seq![] + help + "\n"@ + (kind + "\n"@ + lines));
    assert(line_between(text, seq![], help, kind + "\n"@ + lines));
    assert(text =~= (help + "\n"@) + kind + "\n"@ + lines);
    assert(line_between(text, help + "\n"@, kind, lines));
    lemma_family_line_is_on_the_page(families, i, help);
    lemma_family_line_is_on_the_page(families, i, kind);
}

/// The text of a page is the texts of its parts one behind the other, so the
/// page holds nothing but the lines of its families.
pub proof fn law_pages_add_up(families: Seq<Family>, more: Seq<Family>)
    ensures
        page_text(families + more) == page_text(families) + page_text(more),
    decreases more.len(),
{
    if more.len() == 0 {
        assert(families + more =~= families);
        assert(page_text(families) + page_text(more) =~= page_text(families));
    } else {
        law_pages_add_up(families, more.drop_last());
        assert((families + more).drop_last() =~= families + more.drop_last());
        assert(page_text(families + more) =~= page_text(families) + page_text(more));
    }
}

/// A page with one family without samples is the family's two header lines;
/// each further sample adds its own line to it and nothing else.
pub proof fn law_family_grows_line_by_line(family: Family, sample: Sample)
    ensures
        page_text(seq![Family { samples: seq![], ..family }]) == "# HELP "@ + family.name + " "@
            + family.help + "\n# TYPE "@ + family.name + " "@ + family.kind + "\n"@,
        page_text(seq![Family { samples: family.samples.push(sample), ..family }]) == page_text(
            seq![family],
        ) + family.name + sample.suffix + " "@ + integer_text(sample.value) + "\n"@,
{
    reveal_with_fuel(page_text, 2);
    let bare = Family { samples: seq![], ..family };
    let longer = Family { samples: family.samples.push(sample), ..family };
    assert(longer.samples.drop_last() =~= family.samples);
    assert(seq![bare].drop_last() =~= seq![]);
    assert(seq![longer].drop_last() =~= seq![]);
    assert(seq![family].drop_last() =~= seq![]);
    assert(page_text(seq![bare]) =~= family_text(bare));
    assert(page_text(seq![longer]) =~= family_text(longer));
    assert(page_text(seq![family]) =~= family_text(family));
    assert(family_text(longer) =~= family_text(family) + family.name + sample.suffix + " "@
        + integer_text(sample.value) + "\n"@);
}

} // verus!
