//! Command line arguments: the program's name, positional arguments and
//! `--key=value`, `--key value` and `--key` options.

use vstd::prelude::*;
use vstd::string::StrSliceExecFns;

verus! {

/// What a command line holds.
#[verifier::ext_equal]
pub ghost struct ArgsView {
    /// The name the program was called by.
    pub binary: Seq<char>,
    /// The arguments that are no options, in order.
    pub positional: Seq<Seq<char>>,
    /// The options by name. An option without a value maps to `None`.
    pub options: Map<Seq<char>, Option<Seq<char>>>,
}

/// What is known after some of the arguments have been read.
#[verifier::ext_equal]
pub ghost struct ParseState {
    /// What the arguments read so far hold.
    pub parsed: ArgsView,
    /// The option that the next argument is the value of, if any.
    pub pending: Option<Seq<char>>,
}

/// Whether an argument begins with `--`.
pub open spec fn is_flag(arg: Seq<char>) -> bool {
    arg.len() >= 2 && arg[0] == '-' && arg[1] == '-'
}

/// The argument without its leading `--`, as often as it begins with one.
pub open spec fn trim_dashes(arg: Seq<char>) -> Seq<char>
    decreases arg.len(),
{
    if is_flag(arg) {
        trim_dashes(arg.subrange(2, arg.len() as int))
    } else {
        arg
    }
}

/// Whether the first `=` of `text` is at `at`.
pub open spec fn is_first_equals(text: Seq<char>, at: int) -> bool {
    &&& 0 <= at < text.len()
    &&& text[at] == '='
    &&& forall|j: int| 0 <= j < at ==> text[j] != '='
}

/// Where the first `=` of `text` is, if it has one.
pub open spec fn first_equals(text: Seq<char>) -> Option<int> {
    if exists|at: int| is_first_equals(text, at) {
        Some(choose|at: int| is_first_equals(text, at))
    } else {
        None
    }
}

/// Before any argument is read.
pub open spec fn start() -> ParseState {
    ParseState {
        parsed: ArgsView { binary: Seq::empty(), positional: Seq::empty(), options: Map::empty() },
        pending: None,
    }
}

/// What one more argument adds.
///
/// While no name is known, the argument is the program's name. The argument
/// after an option without `=` is that option's value, whatever it looks
/// like. Otherwise an argument that does not begin with `--` is positional.
/// An option is written `--key=value`, split at its first `=`, or `--key`:
/// then it is recorded without a value and waits for the next argument.
pub open spec fn parse_step(state: ParseState, arg: Seq<char>) -> ParseState {
    let parsed = state.parsed;
    if parsed.binary.len() == 0 {
        ParseState { parsed: ArgsView { binary: arg, ..parsed }, ..state }
    } else if state.pending is Some {
        ParseState {
            parsed: ArgsView {
                options: parsed.options.insert(state.pending->0, Some(arg)),
                ..parsed
            },
            pending: None,
        }
    } else if !is_flag(arg) {
        ParseState {
            parsed: ArgsView { positional: parsed.positional.push(arg), ..parsed },
            ..state
        }
    } else {
        let flag = trim_dashes(arg);
        match first_equals(flag) {
            Some(at) => ParseState {
                parsed: ArgsView {
                    options: parsed.options.insert(
                        flag.subrange(0, at),
                        Some(flag.subrange(at + 1, flag.len() as int)),
                    ),
                    ..parsed
                },
                ..state
            },
            None => ParseState {
                parsed: ArgsView { options: parsed.options.insert(flag, None), ..parsed },
                pending: Some(flag),
            },
        }
    }
}

/// What is known after the first `count` arguments.
pub open spec fn parse_prefix(args: Seq<Seq<char>>, count: nat) -> ParseState
    decreases count,
{
    if count == 0 {
        start()
    } else {
        parse_step(parse_prefix(args, (count - 1) as nat), args[count - 1])
    }
}

/// What the command line `args` holds.
pub open spec fn parse(args: Seq<Seq<char>>) -> ArgsView {
    parse_prefix(args, args.len()).parsed
}

/// The arguments as texts.
pub open spec fn texts(args: Seq<String>) -> Seq<Seq<char>> {
    Seq::new(args.len(), |i: int| args[i]@)
}

/// An optional string as an optional text.
pub open spec fn text_of(value: Option<String>) -> Option<Seq<char>> {
    match value {
        Some(text) => Some(text@),
        None => None,
    }
}

/// The options as a map: `keys[i]` maps to `values[i]`.
pub open spec fn table(keys: Seq<String>, values: Seq<Option<String>>) -> Map<
    Seq<char>,
    Option<Seq<char>>,
> {
    Map::new(
        |key: Seq<char>| texts(keys).contains(key),
        |key: Seq<char>| text_of(values[texts(keys).index_of(key)]),
    )
}

/// At most one `=` is the first.
pub proof fn lemma_first_equals_unique(text: Seq<char>, at: int)
    requires
        is_first_equals(text, at),
    ensures
        first_equals(text) == Some(at),
{
    let other = choose|other: int| is_first_equals(text, other);
    assert(is_first_equals(text, other));
    if other < at {
        assert(text[other] != '=');
    } else if at < other {
        assert(text[at] != '=');
    }
}

/// A text without `=` has no first one.
pub proof fn lemma_first_equals_none(text: Seq<char>)
    requires
        forall|j: int| 0 <= j < text.len() ==> text[j] != '=',
    ensures
        first_equals(text) is None,
{
}

proof fn lemma_table_set(
    keys: Seq<String>,
    values: Seq<Option<String>>,
    at: int,
    value: Option<String>,
)
    requires
        keys.len() == values.len(),
        texts(keys).no_duplicates(),
        0 <= at < keys.len(),
    ensures
        table(keys, values.update(at, value)) == table(keys, values).insert(
            keys[at]@,
            text_of(value),
        ),
{
    let names = texts(keys);
    let before = table(keys, values);
    let after = table(keys, values.update(at, value));
    assert(names[at] == keys[at]@);
    assert forall|key: Seq<char>| #[trigger] names.contains(key) implies 0 <= names.index_of(key)
        < names.len() && names[names.index_of(key)] == key by {}
    assert(names.contains(keys[at]@));
    assert(after =~= before.insert(keys[at]@, text_of(value)));
}

proof fn lemma_table_push(
    keys: Seq<String>,
    values: Seq<Option<String>>,
    key: String,
    value: Option<String>,
)
    requires
        keys.len() == values.len(),
        texts(keys).no_duplicates(),
        !texts(keys).contains(key@),
    ensures
        texts(keys.push(key)).no_duplicates(),
        table(keys.push(key), values.push(value)) == table(keys, values).insert(
            key@,
            text_of(value),
        ),
{
    let names = texts(keys);
    let longer = texts(keys.push(key));
    assert(longer =~= names.push(key@));
    assert forall|name: Seq<char>| #[trigger] names.contains(name) implies 0 <= names.index_of(name)
        < names.len() && names[names.index_of(name)] == name by {}
    assert forall|name: Seq<char>| #[trigger] longer.contains(name) implies 0 <= longer.index_of(
        name,
    ) < longer.len() && longer[longer.index_of(name)] == name by {}
    assert forall|i: int, j: int| 0 <= i < longer.len() && 0 <= j < longer.len() && i
        != j implies longer[i] != longer[j] by {
        if i < names.len() {
            assert(names.contains(longer[i]));
        }
        if j < names.len() {
            assert(names.contains(longer[j]));
        }
    }
    let before = table(keys, values);
    let after = table(keys.push(key), values.push(value));
    assert(longer[names.len() as int] == key@);
    assert(longer.contains(key@));
    assert forall|name: Seq<char>| after.dom().contains(name) <==> before.insert(
        key@,
        text_of(value),
    ).dom().contains(name) by {
        if longer.contains(name) {
            let i = longer.index_of(name);
            if i < names.len() {
                assert(names[i] == name);
                assert(names.contains(name));
            }
        }
        if names.contains(name) {
            let i = names.index_of(name);
            assert(longer[i] == name);
            assert(longer.contains(name));
        }
    }
    assert forall|name: Seq<char>| after.dom().contains(name) implies after[name]
        == before.insert(key@, text_of(value))[name] by {
        let i = longer.index_of(name);
        if name != key@ {
            assert(i < names.len());
            assert(names[i] == name);
            assert(names.contains(name));
            let j = names.index_of(name);
            assert(i == j);
        }
    }
    assert(after =~= before.insert(key@, text_of(value)));
}

/// The parsed command line.
#[derive(Debug)]
pub struct Args {
    binary: String,
    positional: Vec<String>,
    keys: Vec<String>,
    values: Vec<Option<String>>,
}

impl View for Args {
    type V = ArgsView;

    closed spec fn view(&self) -> ArgsView {
        ArgsView {
            binary: self.binary@,
            positional: texts(self.positional@),
            options: table(self.keys@, self.values@),
        }
    }
}

fn starts_with_dashes(arg: &str) -> (yes: bool)
    ensures
        yes == is_flag(arg@),
{
    arg.unicode_len() >= 2 && arg.get_char(0) == '-' && arg.get_char(1) == '-'
}

fn trim_start_dashes(arg: &str) -> (flag: &str)
    ensures
        flag@ == trim_dashes(arg@),
{
    let len: usize = arg.unicode_len();
    let mut from: usize = 0;
    assert(arg@.subrange(0, len as int) =~= arg@);
    while len - from >= 2 && arg.get_char(from) == '-' && arg.get_char(from + 1) == '-'
        invariant
            from <= len,
            len == arg@.len(),
            trim_dashes(arg@) == trim_dashes(arg@.subrange(from as int, len as int)),
        decreases len - from,
    {
        proof {
            let rest = arg@.subrange(from as int, len as int);
            assert(is_flag(rest));
            assert(rest.subrange(2, rest.len() as int) =~= arg@.subrange(from + 2, len as int));
        }
        from += 2;
    }
    proof {
        let rest = arg@.subrange(from as int, len as int);
        assert(!is_flag(rest));
    }
    arg.substring_char(from, len)
}

fn find_equals(text: &str) -> (found: Option<usize>)
    ensures
        match found {
            Some(at) => at < text@.len() && first_equals(text@) == Some(at as int),
            None => first_equals(text@) is None,
        },
{
    let len: usize = text.unicode_len();
    let mut at: usize = 0;
    while at < len
        invariant
            at <= len,
            len == text@.len(),
            forall|j: int| 0 <= j < at ==> text@[j] != '=',
        decreases len - at,
    {
        if text.get_char(at) == '=' {
            proof {
                lemma_first_equals_unique(text@, at as int);
            }
            return Some(at);
        }
        at += 1;
    }
    proof {
        lemma_first_equals_none(text@);
    }
    None
}

fn position_of(keys: &Vec<String>, key: &str) -> (found: Option<usize>)
    ensures
        match found {
            Some(at) => at < keys@.len() && keys@[at as int]@ == key@,
            None => !texts(keys@).contains(key@),
        },
{
    let wanted: String = key.to_owned();
    let mut at: usize = 0;
    while at < keys.len()
        invariant
            at <= keys@.len(),
            wanted@ == key@,
            forall|j: int| 0 <= j < at ==> keys@[j]@ != key@,
        decreases keys@.len() - at,
    {
        if keys[at] == wanted {
            return Some(at);
        }
        at += 1;
    }
    proof {
        let names = texts(keys@);
        if names.contains(key@) {
            let j = choose|j: int| 0 <= j < names.len() && names[j] == key@;
            assert(keys@[j]@ == key@);
        }
    }
    None
}

fn insert(
    keys: &mut Vec<String>,
    values: &mut Vec<Option<String>>,
    key: String,
    value: Option<String>,
)
    requires
        old(keys)@.len() == old(values)@.len(),
        texts(old(keys)@).no_duplicates(),
    ensures
        final(keys)@.len() == final(values)@.len(),
        texts(final(keys)@).no_duplicates(),
        table(final(keys)@, final(values)@) == table(old(keys)@, old(values)@).insert(
            key@,
            text_of(value),
        ),
{
    match position_of(keys, key.as_str()) {
        Some(at) => {
            proof {
                lemma_table_set(keys@, values@, at as int, value);
            }
            values[at] = value;
        },
        None => {
            proof {
                lemma_table_push(keys@, values@, key, value);
            }
            keys.push(key);
            values.push(value);
        },
    }
}

impl Args {
    #[verifier::type_invariant]
    spec fn keys_are_distinct(&self) -> bool {
        self.keys@.len() == self.values@.len() && texts(self.keys@).no_duplicates()
    }

    /// Reads a command line, the program's name first.
    pub fn new(args: Vec<String>) -> (parsed: Args)
        ensures
            parsed@ == parse(texts(args@)),
    {
        let mut binary: String = String::new();
        let mut positional: Vec<String> = Vec::new();
        let mut keys: Vec<String> = Vec::new();
        let mut values: Vec<Option<String>> = Vec::new();
        let mut parent_flag: Option<String> = None;
        assert(texts(positional@) =~= start().parsed.positional);
        assert(table(keys@, values@) =~= start().parsed.options);
        let mut next: usize = 0;
        while next < args.len()
            invariant
                next <= args@.len(),
                keys@.len() == values@.len(),
                texts(keys@).no_duplicates(),
                (ParseState {
                    parsed: ArgsView {
                        binary: binary@,
                        positional: texts(positional@),
                        options: table(keys@, values@),
                    },
                    pending: text_of(parent_flag),
                }) == parse_prefix(texts(args@), next as nat),
            decreases args@.len() - next,
        {
            let arg: &String = &args[next];
            let ghost before = parse_prefix(texts(args@), next as nat);
            assert(texts(args@)[next as int] == arg@);
            next += 1;
            assert(parse_prefix(texts(args@), next as nat) == parse_step(before, arg@));
            if binary.as_str().is_empty() {
                binary = arg.clone();
                continue ;
            }
            if let Some(parent) = parent_flag {
                insert(&mut keys, &mut values, parent, Some(arg.clone()));
                parent_flag = None;
                continue ;
            }
            if !starts_with_dashes(arg.as_str()) {
                positional.push(arg.clone());
                assert(texts(positional@) =~= before.parsed.positional.push(arg@));
                continue ;
            }
            let flag: &str = trim_start_dashes(arg.as_str());
            match find_equals(flag) {
                Some(at) => {
                    let len: usize = flag.unicode_len();
                    let key: &str = flag.substring_char(0, at);
                    let value: &str = flag.substring_char(at + 1, len);
                    insert(&mut keys, &mut values, key.to_owned(), Some(value.to_owned()));
                },
                None => {
                    parent_flag = Some(flag.to_owned());
                    insert(&mut keys, &mut values, flag.to_owned(), None);
                },
            }
        }
        Args { binary, positional, keys, values }
    }

    /// The name the program was called by.
    pub fn binary(&self) -> (name: &String)
        ensures
            name@ == self@.binary,
    {
        &self.binary
    }

    /// The positional argument number `index`, counted from 0, if there are
    /// that many.
    pub fn positional(&self, index: usize) -> (arg: Option<&String>)
        ensures
            match arg {
                Some(text) => index < self@.positional.len() && text@
                    == self@.positional[index as int],
                None => index >= self@.positional.len(),
            },
    {
        if index < self.positional.len() {
            Some(&self.positional[index])
        } else {
            None
        }
    }

    /// The value of the option `key`: `None` if the option was not given, or
    /// was given without a value.
    pub fn option(&self, key: &str) -> (value: Option<String>)
        ensures
            text_of(value) == if self@.options.dom().contains(key@) {
                self@.options[key@]
            } else {
                None
            },
    {
        proof {
            use_type_invariant(self);
        }
        match position_of(&self.keys, key) {
            Some(at) => {
                proof {
                    let names = texts(self.keys@);
                    assert(names[at as int] == key@);
                    assert(names.contains(key@));
                    assert(names[names.index_of(key@)] == key@);
                }
                self.values[at].clone()
            },
            None => None,
        }
    }

    /// Whether the option `key` was given, with a value or without.
    pub fn has_option(&self, key: &str) -> (given: bool)
        ensures
            given == self@.options.dom().contains(key@),
    {
        match position_of(&self.keys, key) {
            Some(at) => {
                proof {
                    let names = texts(self.keys@);
                    assert(names[at as int] == key@);
                    assert(names.contains(key@));
                }
                true
            },
            None => false,
        }
    }
}

} // verus!
