use vstd::prelude::*;
use vstd::string::StringExecFns;
use crate::text::texts;

verus! {

/// One block of an external rule file: the domains it lists, by the way in
/// which each is matched.
pub struct ExternalConfigSub {
    domain: Vec<String>,
    domain_suffix: Vec<String>,
    domain_regex: Vec<String>,
}

/// What an `ExternalConfigSub` holds.
pub struct ExternalConfigSubView {
    pub domain: Seq<Seq<char>>,
    pub domain_suffix: Seq<Seq<char>>,
    pub domain_regex: Seq<Seq<char>>,
}

impl View for ExternalConfigSub {
    type V = ExternalConfigSubView;

    closed spec fn view(&self) -> ExternalConfigSubView {
        ExternalConfigSubView {
            domain: texts(self.domain@),
            domain_suffix: texts(self.domain_suffix@),
            domain_regex: texts(self.domain_regex@),
        }
    }
}

/// The rule `head,value,target`.
pub open spec fn rule_line(head: Seq<char>, value: Seq<char>, target: Seq<char>) -> Seq<char> {
    head + seq![','] + value + seq![','] + target
}

/// One rule `head,value,target` for each value, in their order.
pub open spec fn rule_lines(head: Seq<char>, values: Seq<Seq<char>>, target: Seq<char>) -> Seq<
    Seq<char>,
> {
    Seq::new(values.len(), |i: int| rule_line(head, values[i], target))
}

/// The rules that one block stands for: its domains, then its suffixes, then
/// its patterns.
pub open spec fn block_rules(block: ExternalConfigSubView, target: Seq<char>) -> Seq<Seq<char>> {
    rule_lines("DOMAIN"@, block.domain, target) + rule_lines(
        "DOMAIN-SUFFIX"@,
        block.domain_suffix,
        target,
    ) + rule_lines("DOMAIN-REGEX"@, block.domain_regex, target)
}

/// The rules that the blocks stand for, block after block.
pub open spec fn file_rules(blocks: Seq<ExternalConfigSubView>, target: Seq<char>) -> Seq<
    Seq<char>,
>
    decreases blocks.len(),
{
    if blocks.len() == 0 {
        Seq::empty()
    } else {
        file_rules(blocks.drop_last(), target) + block_rules(blocks.last(), target)
    }
}

/// Appends to `out` one rule `head,value,target` for each value.
fn push_rule_lines(out: &mut Vec<String>, head: &str, values: &Vec<String>, target: &str)
    ensures
        texts(final(out)@) == texts(old(out)@) + rule_lines(head@, texts(values@), target@),
{
    let mut i: usize = 0;
    let ghost start = texts(out@);
    assert(texts(out@) =~= start + rule_lines(head@, texts(values@), target@).take(0));
    while i < values.len()
        invariant
            i <= values.len(),
            start == texts(old(out)@),
            texts(out@) == start + rule_lines(head@, texts(values@), target@).take(i as int),
        decreases values.len() - i,
    {
        let ghost before = texts(out@);
        let mut line = head.to_owned();
        line.push(',');
        line.append(values[i].as_str());
        line.push(',');
        line.append(target);
        assert(line@ =~= rule_line(head@, values@[i as int]@, target@));
        out.push(line);
        assert(texts(out@) =~= before.push(line@));
        i += 1;
        assert(texts(out@) =~= start + rule_lines(head@, texts(values@), target@).take(i as int));
    }
    assert(rule_lines(head@, texts(values@), target@).take(values.len() as int) =~= rule_lines(
        head@,
        texts(values@),
        target@,
    ));
}

impl ExternalConfigSub {
    pub fn new(domain: Vec<String>, domain_suffix: Vec<String>, domain_regex: Vec<String>) -> (r:
        Self)
        ensures
            r@ == (ExternalConfigSubView {
                domain: texts(domain@),
                domain_suffix: texts(domain_suffix@),
                domain_regex: texts(domain_regex@),
            }),
    {
        ExternalConfigSub { domain, domain_suffix, domain_regex }
    }

    /// The rules that send each listed domain to `target`.
    pub fn transform(&self, target: &str) -> (r: Vec<String>)
        ensures
            texts(r@) == block_rules(self@, target@),
    {
        let mut ret: Vec<String> = Vec::new();
        assert(texts(ret@) =~= Seq::empty());
        push_rule_lines(&mut ret, "DOMAIN", &self.domain, target);
        push_rule_lines(&mut ret, "DOMAIN-SUFFIX", &self.domain_suffix, target);
        push_rule_lines(&mut ret, "DOMAIN-REGEX", &self.domain_regex, target);
        assert(texts(ret@) =~= block_rules(self@, target@));
        ret
    }
}

/// The views of a list of blocks.
pub open spec fn blocks(list: Seq<ExternalConfigSub>) -> Seq<ExternalConfigSubView> {
    Seq::new(list.len(), |i: int| list[i]@)
}

/// An external rule file: blocks of domains.
pub struct ExternalConfig {
    rules: Vec<ExternalConfigSub>,
}

impl View for ExternalConfig {
    type V = Seq<ExternalConfigSubView>;

    closed spec fn view(&self) -> Seq<ExternalConfigSubView> {
        blocks(self.rules@)
    }
}

impl ExternalConfig {
    pub fn new(rules: Vec<ExternalConfigSub>) -> (r: Self)
        ensures
            r@ == blocks(rules@),
    {
        ExternalConfig { rules }
    }

    /// The rules that send every domain of the file to `target`.
    pub fn transform(self, target: &str) -> (r: Vec<String>)
        ensures
            texts(r@) == file_rules(self@, target@),
    {
        let mut ret: Vec<String> = Vec::new();
        let mut i: usize = 0;
        assert(self@.take(0) =~= Seq::empty());
        assert(texts(ret@) =~= Seq::empty());
        while i < self.rules.len()
            invariant
                i <= self.rules.len(),
                texts(ret@) == file_rules(self@.take(i as int), target@),
            decreases self.rules.len() - i,
        {
            let ghost before = texts(ret@);
            let ghost next = self@.take(i + 1);
            assert(next.drop_last() =~= self@.take(i as int));
            assert(next.last() == self.rules@[i as int]@);
            let mut lines = self.rules[i].transform(target);
            ret.append(&mut lines);
            assert(texts(ret@) =~= before + block_rules(self.rules@[i as int]@, target@));
            i += 1;
        }
        assert(self@.take(self.rules.len() as int) =~= self@);
        ret
    }
}

} // verus!
