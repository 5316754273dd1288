//! Writing an instruction as a line and reading the line again gives the same
//! instruction.

use crate::grammar::{Action, Connector, Expression, Format, Type};
use crate::instructions::{
    AddView, AliasView, CoerceView, DistinctView, FilterView, IgnoreView, InstructionView,
    MergeView, RenameView, ValidateView,
};
use crate::parser::parse_line;
use crate::text::{
    all_free_of, free_of, join, lemma_join_free, lemma_split_clean, lemma_split_join,
    lemma_split_keeps_free, lemma_split_nonempty, lemma_tokens_clean, split, tokens,
};
use vstd::prelude::*;

verus! {

proof fn lemma_delimiters()
    ensures
        " "@ == seq![' '],
        ","@ == seq![','],
        free_of(","@, ' '),
{
    reveal_strlit(" ");
    reveal_strlit(",");
    assert(" "@ =~= seq![' ']);
    assert(","@ =~= seq![',']);
}

proof fn lemma_names_built(token: Seq<char>)
    requires
        free_of(token, ' '),
    ensures
        crate::instructions::names_ok(split(token, ',')),
{
    lemma_split_nonempty(token, ',');
    lemma_split_keeps_free(token, ',', ' ');
    lemma_split_clean(token, ',');
}

proof fn lemma_names_read_back(names: Seq<Seq<char>>)
    requires
        crate::instructions::names_ok(names),
    ensures
        split(join(names, ","@), ',') == names,
        free_of(join(names, ","@), ' '),
{
    lemma_delimiters();
    lemma_split_join(names, ',');
    lemma_join_free(names, ","@, ' ');
}

proof fn lemma_words_read_back(words: Seq<Seq<char>>)
    requires
        words.len() >= 1,
        words[0].len() > 0,
        all_free_of(words, ' '),
    ensures
        tokens(join(words, " "@)) == words,
{
    lemma_delimiters();
    lemma_split_join(words, ' ');
    let line = join(words, " "@);
    if line.len() == 0 {
        assert(split(line, ' ') =~= seq![Seq::<char>::empty()]);
        assert(words[0] == Seq::<char>::empty());
    }
}

proof fn lemma_add_built(tokens: Seq<Seq<char>>, at: int, line: usize)
    requires
        0 <= at,
        all_free_of(tokens, ' '),
        AddView::at(tokens, at, line) is Ok,
    ensures
        AddView::at(tokens, at, line)->Ok_0.wf(),
{
    assert(free_of(tokens[at + 0], ' '));
    lemma_names_built(tokens[at + 0]);
    assert(free_of(tokens[at + 4], ' '));
}

proof fn lemma_add_reads_back(x: AddView, line: usize)
    requires
        x.wf(),
    ensures
        tokens(x.line()) == x.words(),
        AddView::at(x.words(), 1, line) == Ok::<AddView, crate::error::ParseErrorView>(x),
{
    lemma_delimiters();
    reveal_strlit("ADD");
    lemma_names_read_back(x.fields);
    Connector::lemma_keyword(Connector::TYPED);
    Type::lemma_keyword(x.typed);
    Connector::lemma_keyword(Connector::DEFAULT);
    let words = x.words();
    assert(words.len() == 6);
    assert(free_of(words[0], ' '));
    assert(free_of(words[1], ' '));
    assert(free_of(words[2], ' '));
    assert(free_of(words[3], ' '));
    assert(free_of(words[4], ' '));
    assert(free_of(words[5], ' '));
    assert(all_free_of(words, ' '));
    lemma_words_read_back(words);
}

proof fn lemma_alias_built(tokens: Seq<Seq<char>>, at: int, line: usize)
    requires
        0 <= at,
        all_free_of(tokens, ' '),
        AliasView::at(tokens, at, line) is Ok,
    ensures
        AliasView::at(tokens, at, line)->Ok_0.wf(),
{
    assert(free_of(tokens[at + 0], ' '));
    assert(free_of(tokens[at + 2], ' '));
}

proof fn lemma_alias_reads_back(x: AliasView, line: usize)
    requires
        x.wf(),
    ensures
        tokens(x.line()) == x.words(),
        AliasView::at(x.words(), 1, line) == Ok::<AliasView, crate::error::ParseErrorView>(x),
{
    lemma_delimiters();
    reveal_strlit("ALIAS");
    Connector::lemma_keyword(Connector::TO);
    let words = x.words();
    assert(words.len() == 4);
    assert(free_of(words[0], ' '));
    assert(free_of(words[1], ' '));
    assert(free_of(words[2], ' '));
    assert(free_of(words[3], ' '));
    assert(all_free_of(words, ' '));
    lemma_words_read_back(words);
}

proof fn lemma_coerce_built(tokens: Seq<Seq<char>>, at: int, line: usize)
    requires
        0 <= at,
        all_free_of(tokens, ' '),
        CoerceView::at(tokens, at, line) is Ok,
    ensures
        CoerceView::at(tokens, at, line)->Ok_0.wf(),
{
    assert(free_of(tokens[at + 0], ' '));
    lemma_names_built(tokens[at + 0]);
    assert(free_of(tokens[at + 4], ' '));
}

proof fn lemma_coerce_reads_back(x: CoerceView, line: usize)
    requires
        x.wf(),
    ensures
        tokens(x.line()) == x.words(),
        CoerceView::at(x.words(), 1, line) == Ok::<CoerceView, crate::error::ParseErrorView>(x),
{
    lemma_delimiters();
    reveal_strlit("COERCE");
    lemma_names_read_back(x.fields);
    Connector::lemma_keyword(Connector::TYPED);
    Type::lemma_keyword(x.typed);
    Connector::lemma_keyword(Connector::RESCUE);
    let words = x.words();
    assert(words.len() == 6);
    assert(free_of(words[0], ' '));
    assert(free_of(words[1], ' '));
    assert(free_of(words[2], ' '));
    assert(free_of(words[3], ' '));
    assert(free_of(words[4], ' '));
    assert(free_of(words[5], ' '));
    assert(all_free_of(words, ' '));
    lemma_words_read_back(words);
}

proof fn lemma_distinct_built(tokens: Seq<Seq<char>>, at: int, line: usize)
    requires
        0 <= at,
        all_free_of(tokens, ' '),
        DistinctView::at(tokens, at, line) is Ok,
    ensures
        DistinctView::at(tokens, at, line)->Ok_0.wf(),
{
    assert(free_of(tokens[at + 0], ' '));
    lemma_names_built(tokens[at + 0]);
}

proof fn lemma_distinct_reads_back(x: DistinctView, line: usize)
    requires
        x.wf(),
    ensures
        tokens(x.line()) == x.words(),
        DistinctView::at(x.words(), 1, line) == Ok::<DistinctView, crate::error::ParseErrorView>(x),
{
    lemma_delimiters();
    reveal_strlit("DISTINCT");
    lemma_names_read_back(x.fields);
    let words = x.words();
    assert(words.len() == 2);
    assert(free_of(words[0], ' '));
    assert(free_of(words[1], ' '));
    assert(all_free_of(words, ' '));
    lemma_words_read_back(words);
}

proof fn lemma_filter_built(tokens: Seq<Seq<char>>, at: int, line: usize)
    requires
        0 <= at,
        all_free_of(tokens, ' '),
        FilterView::at(tokens, at, line) is Ok,
    ensures
        FilterView::at(tokens, at, line)->Ok_0.wf(),
{
    assert(free_of(tokens[at + 0], ' '));
    lemma_names_built(tokens[at + 0]);
    assert(free_of(tokens[at + 3], ' '));
}

proof fn lemma_filter_reads_back(x: FilterView, line: usize)
    requires
        x.wf(),
    ensures
        tokens(x.line()) == x.words(),
        FilterView::at(x.words(), 1, line) == Ok::<FilterView, crate::error::ParseErrorView>(x),
{
    lemma_delimiters();
    reveal_strlit("FILTER");
    lemma_names_read_back(x.fields);
    Connector::lemma_keyword(Connector::MATCHING);
    Expression::lemma_keyword(x.expression);
    let words = x.words();
    assert(words.len() == 5);
    assert(free_of(words[0], ' '));
    assert(free_of(words[1], ' '));
    assert(free_of(words[2], ' '));
    assert(free_of(words[3], ' '));
    assert(free_of(words[4], ' '));
    assert(all_free_of(words, ' '));
    lemma_words_read_back(words);
}

proof fn lemma_ignore_built(tokens: Seq<Seq<char>>, at: int, line: usize)
    requires
        0 <= at,
        all_free_of(tokens, ' '),
        IgnoreView::at(tokens, at, line) is Ok,
    ensures
        IgnoreView::at(tokens, at, line)->Ok_0.wf(),
{
    assert(free_of(tokens[at + 0], ' '));
    lemma_names_built(tokens[at + 0]);
}

proof fn lemma_ignore_reads_back(x: IgnoreView, line: usize)
    requires
        x.wf(),
    ensures
        tokens(x.line()) == x.words(),
        IgnoreView::at(x.words(), 1, line) == Ok::<IgnoreView, crate::error::ParseErrorView>(x),
{
    lemma_delimiters();
    reveal_strlit("IGNORE");
    lemma_names_read_back(x.fields);
    let words = x.words();
    assert(words.len() == 2);
    assert(free_of(words[0], ' '));
    assert(free_of(words[1], ' '));
    assert(all_free_of(words, ' '));
    lemma_words_read_back(words);
}

proof fn lemma_merge_built(tokens: Seq<Seq<char>>, at: int, line: usize)
    requires
        0 <= at,
        all_free_of(tokens, ' '),
        MergeView::at(tokens, at, line) is Ok,
    ensures
        MergeView::at(tokens, at, line)->Ok_0.wf(),
{
    assert(free_of(tokens[at + 0], ' '));
    lemma_names_built(tokens[at + 0]);
    assert(free_of(tokens[at + 2], ' '));
}

proof fn lemma_merge_reads_back(x: MergeView, line: usize)
    requires
        x.wf(),
    ensures
        tokens(x.line()) == x.words(),
        MergeView::at(x.words(), 1, line) == Ok::<MergeView, crate::error::ParseErrorView>(x),
{
    lemma_delimiters();
    reveal_strlit("MERGE");
    lemma_names_read_back(x.fields);
    Connector::lemma_keyword(Connector::TO);
    let words = x.words();
    assert(words.len() == 4);
    assert(free_of(words[0], ' '));
    assert(free_of(words[1], ' '));
    assert(free_of(words[2], ' '));
    assert(free_of(words[3], ' '));
    assert(all_free_of(words, ' '));
    lemma_words_read_back(words);
}

proof fn lemma_rename_built(tokens: Seq<Seq<char>>, at: int, line: usize)
    requires
        0 <= at,
        all_free_of(tokens, ' '),
        RenameView::at(tokens, at, line) is Ok,
    ensures
        RenameView::at(tokens, at, line)->Ok_0.wf(),
{
    assert(free_of(tokens[at + 0], ' '));
    assert(free_of(tokens[at + 2], ' '));
}

proof fn lemma_rename_reads_back(x: RenameView, line: usize)
    requires
        x.wf(),
    ensures
        tokens(x.line()) == x.words(),
        RenameView::at(x.words(), 1, line) == Ok::<RenameView, crate::error::ParseErrorView>(x),
{
    lemma_delimiters();
    reveal_strlit("RENAME");
    Connector::lemma_keyword(Connector::TO);
    let words = x.words();
    assert(words.len() == 4);
    assert(free_of(words[0], ' '));
    assert(free_of(words[1], ' '));
    assert(free_of(words[2], ' '));
    assert(free_of(words[3], ' '));
    assert(all_free_of(words, ' '));
    lemma_words_read_back(words);
}

proof fn lemma_validate_built(tokens: Seq<Seq<char>>, at: int, line: usize)
    requires
        0 <= at,
        all_free_of(tokens, ' '),
        ValidateView::at(tokens, at, line) is Ok,
    ensures
        ValidateView::at(tokens, at, line)->Ok_0.wf(),
{
    assert(free_of(tokens[at + 0], ' '));
}

proof fn lemma_validate_reads_back(x: ValidateView, line: usize)
    requires
        x.wf(),
    ensures
        tokens(x.line()) == x.words(),
        ValidateView::at(x.words(), 1, line) == Ok::<ValidateView, crate::error::ParseErrorView>(x),
{
    lemma_delimiters();
    reveal_strlit("VALIDATE");
    Connector::lemma_keyword(Connector::MATCHING);
    Format::lemma_keyword(x.format);
    Connector::lemma_keyword(Connector::OR);
    Action::lemma_keyword(x.action);
    let words = x.words();
    assert(words.len() == 6);
    assert(free_of(words[0], ' '));
    assert(free_of(words[1], ' '));
    assert(free_of(words[2], ' '));
    assert(free_of(words[3], ' '));
    assert(free_of(words[4], ' '));
    assert(free_of(words[5], ' '));
    assert(all_free_of(words, ' '));
    lemma_words_read_back(words);
}

/// An instruction read from a line can be written as a line again: its names
/// and values hold no delimiter.
pub proof fn lemma_built_wf(line: Seq<char>, number: usize)
    ensures
        parse_line(line, number) matches Ok(Some(built)) ==> built.wf(),
{
    let words = tokens(line);
    lemma_tokens_clean(line);
    if words.len() > 0 {
        if words[0] == "ADD"@ {
            if AddView::at(words, 1, number) is Ok {
                lemma_add_built(words, 1, number);
            }
        } else if words[0] == "ALIAS"@ {
            if AliasView::at(words, 1, number) is Ok {
                lemma_alias_built(words, 1, number);
            }
        } else if words[0] == "MERGE"@ {
            if MergeView::at(words, 1, number) is Ok {
                lemma_merge_built(words, 1, number);
            }
        } else if words[0] == "IGNORE"@ {
            if IgnoreView::at(words, 1, number) is Ok {
                lemma_ignore_built(words, 1, number);
            }
        } else if words[0] == "COERCE"@ {
            if CoerceView::at(words, 1, number) is Ok {
                lemma_coerce_built(words, 1, number);
            }
        } else if words[0] == "RENAME"@ {
            if RenameView::at(words, 1, number) is Ok {
                lemma_rename_built(words, 1, number);
            }
        } else if words[0] == "FILTER"@ {
            if FilterView::at(words, 1, number) is Ok {
                lemma_filter_built(words, 1, number);
            }
        } else if words[0] == "DISTINCT"@ {
            if DistinctView::at(words, 1, number) is Ok {
                lemma_distinct_built(words, 1, number);
            }
        } else if words[0] == "VALIDATE"@ {
            if ValidateView::at(words, 1, number) is Ok {
                lemma_validate_built(words, 1, number);
            }
        }
    }
}

proof fn lemma_keywords_differ()
    ensures
        "ADD"@ != "ALIAS"@,
        "ADD"@ != "MERGE"@,
        "ADD"@ != "IGNORE"@,
        "ADD"@ != "COERCE"@,
        "ADD"@ != "RENAME"@,
        "ADD"@ != "FILTER"@,
        "ADD"@ != "DISTINCT"@,
        "ADD"@ != "VALIDATE"@,
        "ALIAS"@ != "MERGE"@,
        "ALIAS"@ != "IGNORE"@,
        "ALIAS"@ != "COERCE"@,
        "ALIAS"@ != "RENAME"@,
        "ALIAS"@ != "FILTER"@,
        "ALIAS"@ != "DISTINCT"@,
        "ALIAS"@ != "VALIDATE"@,
        "MERGE"@ != "IGNORE"@,
        "MERGE"@ != "COERCE"@,
        "MERGE"@ != "RENAME"@,
        "MERGE"@ != "FILTER"@,
        "MERGE"@ != "DISTINCT"@,
        "MERGE"@ != "VALIDATE"@,
        "IGNORE"@ != "COERCE"@,
        "IGNORE"@ != "RENAME"@,
        "IGNORE"@ != "FILTER"@,
        "IGNORE"@ != "DISTINCT"@,
        "IGNORE"@ != "VALIDATE"@,
        "COERCE"@ != "RENAME"@,
        "COERCE"@ != "FILTER"@,
        "COERCE"@ != "DISTINCT"@,
        "COERCE"@ != "VALIDATE"@,
        "RENAME"@ != "FILTER"@,
        "RENAME"@ != "DISTINCT"@,
        "RENAME"@ != "VALIDATE"@,
        "FILTER"@ != "DISTINCT"@,
        "FILTER"@ != "VALIDATE"@,
        "DISTINCT"@ != "VALIDATE"@,
{
    reveal_strlit("ADD");
    reveal_strlit("ALIAS");
    reveal_strlit("MERGE");
    reveal_strlit("IGNORE");
    reveal_strlit("COERCE");
    reveal_strlit("RENAME");
    reveal_strlit("FILTER");
    reveal_strlit("DISTINCT");
    reveal_strlit("VALIDATE");
    assert("ADD"@.len() == 3 && "ADD"@[0] == 'A');
    assert("ALIAS"@.len() == 5 && "ALIAS"@[0] == 'A');
    assert("MERGE"@.len() == 5 && "MERGE"@[0] == 'M');
    assert("IGNORE"@.len() == 6 && "IGNORE"@[0] == 'I');
    assert("COERCE"@.len() == 6 && "COERCE"@[0] == 'C');
    assert("RENAME"@.len() == 6 && "RENAME"@[0] == 'R');
    assert("FILTER"@.len() == 6 && "FILTER"@[0] == 'F');
    assert("DISTINCT"@.len() == 8 && "DISTINCT"@[0] == 'D');
    assert("VALIDATE"@.len() == 8 && "VALIDATE"@[0] == 'V');
}

/// The line that writes an instruction is read as that instruction, whatever
/// its number.
pub proof fn lemma_reads_back(instruction: InstructionView, number: usize)
    requires
        instruction.wf(),
    ensures
        parse_line(instruction.line(), number) == Ok::<
            Option<InstructionView>,
            crate::error::ParseErrorView,
        >(Some(instruction)),
{
    lemma_keywords_differ();
    match instruction {
        InstructionView::ADD(inner) => {
            lemma_add_reads_back(inner, number);
            assert(inner.words()[0] == "ADD"@);
        },
        InstructionView::ALIAS(inner) => {
            lemma_alias_reads_back(inner, number);
            assert(inner.words()[0] == "ALIAS"@);
        },
        InstructionView::MERGE(inner) => {
            lemma_merge_reads_back(inner, number);
            assert(inner.words()[0] == "MERGE"@);
        },
        InstructionView::IGNORE(inner) => {
            lemma_ignore_reads_back(inner, number);
            assert(inner.words()[0] == "IGNORE"@);
        },
        InstructionView::COERCE(inner) => {
            lemma_coerce_reads_back(inner, number);
            assert(inner.words()[0] == "COERCE"@);
        },
        InstructionView::RENAME(inner) => {
            lemma_rename_reads_back(inner, number);
            assert(inner.words()[0] == "RENAME"@);
        },
        InstructionView::FILTER(inner) => {
            lemma_filter_reads_back(inner, number);
            assert(inner.words()[0] == "FILTER"@);
        },
        InstructionView::DISTINCT(inner) => {
            lemma_distinct_reads_back(inner, number);
            assert(inner.words()[0] == "DISTINCT"@);
        },
        InstructionView::VALIDATE(inner) => {
            lemma_validate_reads_back(inner, number);
            assert(inner.words()[0] == "VALIDATE"@);
        },
    }
}

/// Reading a line, writing the instruction and reading it again gives the same
/// instruction: the second reading differs from the first in nothing but,
/// possibly, the text of the line.
pub proof fn lemma_roundtrip(line: Seq<char>, first: usize, second: usize)
    ensures
        parse_line(line, first) matches Ok(Some(built)) ==> parse_line(built.line(), second)
            == Ok::<Option<InstructionView>, crate::error::ParseErrorView>(Some(built)),
{
    lemma_built_wf(line, first);
    if let Ok(Some(built)) = parse_line(line, first) {
        lemma_reads_back(built, second);
    }
}

} // verus!
