//! Event argument types, read from their textual form.

use vstd::prelude::*;

use crate::metadata::Error;
use crate::text::{characters, trim};
use std::str::FromStr;

verus! {

/// Naive representation of an event's argument types.
///
/// It serves to find the size of an event without having its concrete type, so that the raw
/// bytes of an encoded list of event records can be taken apart.
#[derive(Debug, Eq, PartialEq, Hash)]
pub enum EventArg {
    Primitive(String),
    Vec(Box<EventArg>),
    Tuple(Vec<EventArg>),
    Option(Box<EventArg>),
}

/// What an [`EventArg`] stands for.
pub enum EventArgView {
    Primitive(Seq<char>),
    Vec(Box<EventArgView>),
    Tuple(Seq<EventArgView>),
    Option(Box<EventArgView>),
}

/// The text that opens a vector type.
pub open spec fn vec_open() -> Seq<char> {
    seq!['V', 'e', 'c', '<']
}

/// The text that opens an optional type.
pub open spec fn option_open() -> Seq<char> {
    seq!['O', 'p', 't', 'i', 'o', 'n', '<']
}

/// What the text `s` denotes, or the message of the error that it gives.
///
/// `Vec<..>` and `Option<..>` wrap one argument. `(..)` holds the arguments between its
/// commas; the commas of nested types count as well. Anything else is a primitive type.
pub open spec fn parsed(s: Seq<char>) -> Result<EventArgView, Seq<char>>
    decreases s.len(), 0nat,
{
    if vec_open().is_prefix_of(s) {
        if s.last() == '>' {
            match parsed(s.subrange(4, s.len() - 1)) {
                Ok(arg) => Ok(EventArgView::Vec(Box::new(arg))),
                Err(e) => Err(e),
            }
        } else {
            Err(s)
        }
    } else if option_open().is_prefix_of(s) {
        if s.last() == '>' {
            match parsed(s.subrange(7, s.len() - 1)) {
                Ok(arg) => Ok(EventArgView::Option(Box::new(arg))),
                Err(e) => Err(e),
            }
        } else {
            Err("Expected closing `>` for `Option` got: "@ + s)
        }
    } else if s.len() > 0 && s[0] == '(' {
        if s.last() == ')' {
            match parsed_list(s.subrange(1, s.len() - 1)) {
                Ok(args) => Ok(EventArgView::Tuple(args)),
                Err(e) => Err(e),
            }
        } else {
            Err(s)
        }
    } else {
        Ok(EventArgView::Primitive(s))
    }
}

/// What the comma-separated text `s` denotes. The first piece that is in error decides.
pub open spec fn parsed_list(s: Seq<char>) -> Result<Seq<EventArgView>, Seq<char>>
    decreases s.len(), 1nat,
{
    let k = crate::text::comma_at(s);
    proof {
        crate::text::lemma_comma_at(s);
        crate::text::lemma_trimmed_len(s.subrange(0, k));
    }
    match parsed(crate::text::trimmed(s.subrange(0, k))) {
        Err(e) => Err(e),
        Ok(arg) => if k < s.len() {
            match parsed_list(s.subrange(k + 1, s.len() as int)) {
                Ok(args) => Ok(seq![arg] + args),
                Err(e) => Err(e),
            }
        } else {
            Ok(seq![arg])
        },
    }
}

/// The primitive types of an argument, from left to right.
pub open spec fn primitives_of(arg: EventArgView) -> Seq<Seq<char>>
    decreases arg,
{
    match arg {
        EventArgView::Primitive(p) => seq![p],
        EventArgView::Vec(inner) => primitives_of(*inner),
        EventArgView::Option(inner) => primitives_of(*inner),
        EventArgView::Tuple(args) => primitives_of_all(args),
    }
}

/// The primitive types of several arguments, from left to right.
pub open spec fn primitives_of_all(args: Seq<EventArgView>) -> Seq<Seq<char>>
    decreases args,
{
    if args.len() == 0 {
        Seq::empty()
    } else {
        primitives_of_all(args.drop_last()) + primitives_of(args.last())
    }
}

/// The contents of strings.
pub open spec fn texts(strings: Seq<String>) -> Seq<Seq<char>> {
    strings.map_values(|s: String| s@)
}

/// What a list of arguments stands for.
pub open spec fn models(args: Seq<EventArg>) -> Seq<EventArgView>
    decreases args,
{
    Seq::new(
        args.len(),
        |i: int|
            if 0 <= i < args.len() {
                args[i].model()
            } else {
                arbitrary()
            },
    )
}

/// Whether `chars` starts with `prefix`.
fn starts_with(chars: &Vec<char>, prefix: &[char]) -> (found: bool)
    ensures
        found == prefix@.is_prefix_of(chars@),
{
    if chars.len() < prefix.len() {
        return false;
    }
    let mut i: usize = 0;
    while i < prefix.len()
        invariant
            i <= prefix.len() <= chars.len(),
            forall|j: int| 0 <= j < i ==> chars@[j] == prefix@[j],
        decreases prefix.len() - i,
    {
        if chars[i] != prefix[i] {
            assert(chars@.subrange(0, prefix@.len() as int)[i as int] != prefix@[i as int]);
            return false;
        }
        i = i + 1;
    }
    proof {
        assert(chars@.subrange(0, prefix@.len() as int) =~= prefix@);
    }
    true
}

impl EventArg {
    /// What this argument stands for.
    pub open spec fn model(self) -> EventArgView
        decreases self,
    {
        match self {
            EventArg::Primitive(p) => EventArgView::Primitive(p@),
            EventArg::Vec(inner) => EventArgView::Vec(Box::new(inner.model())),
            EventArg::Option(inner) => EventArgView::Option(Box::new(inner.model())),
            EventArg::Tuple(args) => EventArgView::Tuple(models(args@)),
        }
    }

    /// Reads the textual form of an argument type.
    pub fn from_str(s: &str) -> (result: Result<EventArg, Error>)
        ensures
            match parsed(s@) {
                Ok(arg) => result matches Ok(found) && found.model() == arg,
                Err(message) => result matches Err(Error::InvalidEventArgument(text)) && text@
                    == message,
            },
        decreases s@.len(), 0nat,
    {
        let chars = characters(s);
        let n: usize = chars.len();
        if starts_with(&chars, &['V', 'e', 'c', '<']) {
            if chars[n - 1] == '>' {
                match EventArg::from_str(s.substring_char(4, n - 1)) {
                    Ok(arg) => Ok(EventArg::Vec(Box::new(arg))),
                    Err(e) => Err(e),
                }
            } else {
                Err(Error::InvalidEventArgument(s.to_owned()))
            }
        } else if starts_with(&chars, &['O', 'p', 't', 'i', 'o', 'n', '<']) {
            if chars[n - 1] == '>' {
                match EventArg::from_str(s.substring_char(7, n - 1)) {
                    Ok(arg) => Ok(EventArg::Option(Box::new(arg))),
                    Err(e) => Err(e),
                }
            } else {
                Err(
                    Error::InvalidEventArgument(
                        "Expected closing `>` for `Option` got: ".to_owned().concat(s),
                    ),
                )
            }
        } else if n > 0 && chars[0] == '(' {
            if chars[n - 1] == ')' {
                match EventArg::parse_list(s.substring_char(1, n - 1)) {
                    Ok(args) => Ok(EventArg::Tuple(args)),
                    Err(e) => Err(e),
                }
            } else {
                Err(Error::InvalidEventArgument(s.to_owned()))
            }
        } else {
            Ok(EventArg::Primitive(s.to_owned()))
        }
    }

    /// Reads the arguments between the commas of `s`.
    fn parse_list(s: &str) -> (result: Result<Vec<EventArg>, Error>)
        ensures
            match parsed_list(s@) {
                Ok(args) => result matches Ok(found) && models(found@) == args,
                Err(message) => result matches Err(Error::InvalidEventArgument(text)) && text@
                    == message,
            },
        decreases s@.len(), 1nat,
    {
        let chars = characters(s);
        let n: usize = chars.len();
        let mut args: Vec<EventArg> = Vec::new();
        let mut start: usize = 0;
        let mut more: bool = true;
        proof {
            assert(s@.subrange(0, n as int) =~= s@);
            assert(models(args@) =~= Seq::empty());
        }
        while more
            invariant
                chars@ == s@,
                n == chars.len(),
                start <= n,
                !more ==> start == n,
                match parsed_list(s@) {
                    Ok(all) => if more {
                        parsed_list(s@.subrange(start as int, n as int)) matches Ok(rest) && all
                            == models(args@) + rest
                    } else {
                        all == models(args@)
                    },
                    Err(message) => more && parsed_list(s@.subrange(start as int, n as int))
                        == Err::<Seq<EventArgView>, Seq<char>>(message),
                },
            decreases n - start + if more { 1int } else { 0int },
        {
            let ghost rest = s@.subrange(start as int, n as int);
            let mut end: usize = start;
            while end < n && chars[end] != ','
                invariant
                    chars@ == s@,
                    n == chars.len(),
                    start <= end <= n,
                    forall|i: int| start <= i < end ==> s@[i] != ',',
                decreases n - end,
            {
                end = end + 1;
            }
            proof {
                assert forall|i: int| 0 <= i < end - start implies rest[i] != ',' by {
                    assert(rest[i] == s@[i + start]);
                }
                if end < n {
                    assert(rest[end - start] == s@[end as int]);
                }
                crate::text::lemma_comma_at_unique(rest, end - start);
                assert(rest.subrange(0, end - start) =~= s@.subrange(start as int, end as int));
                crate::text::lemma_trimmed_len(rest.subrange(0, end - start));
            }
            let piece = trim(s.substring_char(start, end));
            match EventArg::from_str(piece) {
                Ok(arg) => {
                    let ghost before = args@;
                    args.push(arg);
                    proof {
                        assert(models(args@) =~= models(before).push(arg.model()));
                    }
                },
                Err(e) => {
                    return Err(e);
                },
            }
            if end < n {
                proof {
                    assert(rest.subrange(end - start + 1, rest.len() as int) =~= s@.subrange(
                        end + 1,
                        n as int,
                    ));
                }
                start = end + 1;
            } else {
                start = n;
                more = false;
            }
        }
        Ok(args)
    }

    /// Returns all primitive types for this argument.
    pub fn primitives(&self) -> (found: Vec<String>)
        ensures
            texts(found@) == primitives_of(self.model()),
        decreases self,
    {
        match self {
            EventArg::Primitive(p) => {
                let mut found: Vec<String> = Vec::new();
                found.push(p.clone());
                proof {
                    assert(texts(found@) =~= seq![p@]);
                }
                found
            },
            EventArg::Vec(arg) => arg.primitives(),
            EventArg::Option(arg) => arg.primitives(),
            EventArg::Tuple(args) => {
                let mut found: Vec<String> = Vec::new();
                proof {
                    assert(models(args@).subrange(0, 0) =~= Seq::empty());
                    assert(texts(found@) =~= Seq::empty());
                }
                let mut i: usize = 0;
                while i < args.len()
                    invariant
                        i <= args.len(),
                        *self == EventArg::Tuple(*args),
                        texts(found@) == primitives_of_all(models(args@).subrange(0, i as int)),
                    decreases args.len() - i,
                {
                    assert(decreases_to!(*self => self->Tuple_0));
                    let mut more = args[i].primitives();
                    proof {
                        let upto = models(args@).subrange(0, i + 1);
                        assert(upto.drop_last() =~= models(args@).subrange(0, i as int));
                        assert(upto.last() == args@[i as int].model());
                        assert(texts(found@ + more@) =~= texts(found@) + texts(more@));
                    }
                    found.append(&mut more);
                    i = i + 1;
                }
                proof {
                    assert(models(args@).subrange(0, i as int) =~= models(args@));
                }
                found
            },
        }
    }
}

impl Clone for EventArg {
    fn clone(&self) -> (copy: Self)
        ensures
            copy.model() == self.model(),
        decreases self,
    {
        match self {
            EventArg::Primitive(p) => EventArg::Primitive(p.clone()),
            EventArg::Vec(arg) => EventArg::Vec(Box::new((&**arg).clone())),
            EventArg::Option(arg) => EventArg::Option(Box::new((&**arg).clone())),
            EventArg::Tuple(args) => {
                let mut copies: Vec<EventArg> = Vec::new();
                let mut i: usize = 0;
                while i < args.len()
                    invariant
                        i <= args.len(),
                        *self == EventArg::Tuple(*args),
                        copies.len() == i,
                        forall|j: int| 0 <= j < i ==> (#[trigger] copies@[j]).model() == args@[j].model(),
                    decreases args.len() - i,
                {
                    assert(decreases_to!(*self => self->Tuple_0));
                    let arg: &EventArg = &args[i];
                    copies.push(arg.clone());
                    i = i + 1;
                }
                proof {
                    assert(models(copies@) =~= models(args@));
                }
                EventArg::Tuple(copies)
            },
        }
    }
}

impl FromStr for EventArg {
    type Err = Error;

    fn from_str(s: &str) -> (result: Result<Self, Error>)
        ensures
            match parsed(s@) {
                Ok(arg) => result matches Ok(found) && found.model() == arg,
                Err(message) => result matches Err(Error::InvalidEventArgument(text)) && text@
                    == message,
            },
    {
        EventArg::from_str(s)
    }
}

/// The text of an argument.
pub open spec fn rendered(arg: EventArgView) -> Seq<char>
    decreases arg,
{
    match arg {
        EventArgView::Primitive(p) => p,
        EventArgView::Vec(inner) => vec_open() + rendered(*inner) + seq!['>'],
        EventArgView::Option(inner) => option_open() + rendered(*inner) + seq!['>'],
        EventArgView::Tuple(args) => seq!['('] + rendered_list(args) + seq![')'],
    }
}

/// The texts of several arguments, with a comma between each two.
pub open spec fn rendered_list(args: Seq<EventArgView>) -> Seq<char>
    decreases args,
{
    if args.len() == 0 {
        Seq::empty()
    } else if args.len() == 1 {
        rendered(args[0])
    } else {
        rendered(args[0]) + seq![','] + rendered_list(args.subrange(1, args.len() as int))
    }
}

/// Whether the text of an argument shows what the argument is: a primitive type must not
/// look like another kind of type, and a tuple must have members whose texts hold no comma
/// and neither start nor end with white space.
pub open spec fn legible(arg: EventArgView) -> bool
    decreases arg,
{
    match arg {
        EventArgView::Primitive(p) => !vec_open().is_prefix_of(p) && !option_open().is_prefix_of(p)
            && !seq!['('].is_prefix_of(p),
        EventArgView::Vec(inner) => legible(*inner),
        EventArgView::Option(inner) => legible(*inner),
        EventArgView::Tuple(args) => args.len() > 0 && legible_list(args),
    }
}

/// Whether every member of a tuple can be told from its text.
pub open spec fn legible_list(args: Seq<EventArgView>) -> bool
    decreases args,
{
    args.len() == 0 || {
        &&& legible(args[0])
        &&& !rendered(args[0]).contains(',')
        &&& crate::text::trimmed(rendered(args[0])) == rendered(args[0])
        &&& legible_list(args.subrange(1, args.len() as int))
    }
}

/// Whether no character of `s` is white space.
pub open spec fn has_no_white_space(s: Seq<char>) -> bool {
    forall|i: int| 0 <= i < s.len() ==> !crate::text::is_white_space_char(#[trigger] s[i])
}

/// Reading the text of a legible argument gives the argument back.
pub proof fn law_rendered_reads_back(arg: EventArgView)
    requires
        legible(arg),
    ensures
        parsed(rendered(arg)) == Ok::<EventArgView, Seq<char>>(arg),
    decreases arg,
{
    let s = rendered(arg);
    match arg {
        EventArgView::Primitive(p) => {
            if p.len() > 0 && p[0] == '(' {
                assert(p.subrange(0, 1) =~= seq!['(']);
            }
        },
        EventArgView::Vec(inner) => {
            law_rendered_reads_back(*inner);
            assert(s.subrange(0, 4) =~= vec_open());
            assert(s.subrange(4, s.len() - 1) =~= rendered(*inner));
        },
        EventArgView::Option(inner) => {
            law_rendered_reads_back(*inner);
            assert(s.subrange(0, 7) =~= option_open());
            assert(s.subrange(7, s.len() - 1) =~= rendered(*inner));
            assert(s[0] == 'O' && vec_open()[0] == 'V');
        },
        EventArgView::Tuple(args) => {
            lemma_rendered_list_reads_back(args);
            assert(s[0] == '(' && vec_open()[0] == 'V' && option_open()[0] == 'O');
            assert(s.subrange(1, s.len() - 1) =~= rendered_list(args));
        },
    }
}

proof fn lemma_rendered_list_reads_back(args: Seq<EventArgView>)
    requires
        args.len() > 0,
        legible_list(args),
    ensures
        parsed_list(rendered_list(args)) == Ok::<Seq<EventArgView>, Seq<char>>(args),
    decreases args,
{
    let s = rendered_list(args);
    let first = rendered(args[0]);
    law_rendered_reads_back(args[0]);
    assert forall|i: int| 0 <= i < first.len() implies s[i] != ',' by {
        assert(first.contains(first[i]));
    }
    crate::text::lemma_comma_at_unique(s, first.len() as int);
    assert(s.subrange(0, first.len() as int) =~= first);
    if args.len() == 1 {
        assert(args =~= seq![args[0]]);
    } else {
        let rest = args.subrange(1, args.len() as int);
        lemma_rendered_list_reads_back(rest);
        assert(s.subrange(first.len() as int + 1, s.len() as int) =~= rendered_list(rest));
        assert(args =~= seq![args[0]] + rest);
    }
}

/// Text without white space that is read is the text of what it gives.
pub proof fn law_read_text_is_rendered(s: Seq<char>)
    requires
        has_no_white_space(s),
    ensures
        parsed(s) matches Ok(arg) ==> rendered(arg) == s,
    decreases s.len(), 0nat,
{
    if vec_open().is_prefix_of(s) {
        if s.last() == '>' {
            law_read_text_is_rendered(s.subrange(4, s.len() - 1));
            assert(s =~= vec_open() + s.subrange(4, s.len() - 1) + seq!['>']);
        }
    } else if option_open().is_prefix_of(s) {
        if s.last() == '>' {
            law_read_text_is_rendered(s.subrange(7, s.len() - 1));
            assert(s =~= option_open() + s.subrange(7, s.len() - 1) + seq!['>']);
        }
    } else if s.len() > 0 && s[0] == '(' {
        if s.last() == ')' {
            lemma_read_list_is_rendered(s.subrange(1, s.len() - 1));
            assert(s =~= seq!['('] + s.subrange(1, s.len() - 1) + seq![')']);
        }
    }
}

proof fn lemma_read_list_is_rendered(s: Seq<char>)
    requires
        has_no_white_space(s),
    ensures
        parsed_list(s) matches Ok(args) ==> args.len() > 0 && rendered_list(args) == s,
    decreases s.len(), 1nat,
{
    let k = crate::text::comma_at(s);
    crate::text::lemma_comma_at(s);
    let first = s.subrange(0, k);
    crate::text::lemma_trim_start(first, 0);
    assert(first.subrange(0, k) =~= first);
    crate::text::lemma_trim_end(first, k);
    law_read_text_is_rendered(first);
    if k < s.len() {
        let rest = s.subrange(k + 1, s.len() as int);
        lemma_read_list_is_rendered(rest);
        assert(s =~= first + seq![','] + rest);
        if let (Ok(arg), Ok(args)) = (parsed(first), parsed_list(rest)) {
            let all = seq![arg] + args;
            assert(all.subrange(1, all.len() as int) =~= args);
        }
    } else {
        assert(first =~= s);
    }
}

/// A tuple is read piece by piece: it is accepted if and only if every piece between its
/// commas is, and has then one member for each piece, in order.
pub proof fn law_list_is_read_piecewise(s: Seq<char>)
    ensures
        match parsed_list(s) {
            Ok(args) => {
                &&& args.len() == crate::text::split_commas(s).len()
                &&& forall|i: int|
                    0 <= i < args.len() ==> parsed(
                        crate::text::trimmed(#[trigger] crate::text::split_commas(s)[i]),
                    ) == Ok::<EventArgView, Seq<char>>(args[i])
            },
            Err(message) => exists|i: int|
                {
                    &&& 0 <= i < crate::text::split_commas(s).len()
                    &&& parsed(crate::text::trimmed(#[trigger] crate::text::split_commas(s)[i]))
                        == Err::<EventArgView, Seq<char>>(message)
                    &&& forall|j: int|
                        0 <= j < i ==> parsed(
                            crate::text::trimmed(#[trigger] crate::text::split_commas(s)[j]),
                        ) is Ok
                },
        },
    decreases s.len(),
{
    let k = crate::text::comma_at(s);
    crate::text::lemma_comma_at(s);
    let pieces = crate::text::split_commas(s);
    assert(s.subrange(0, s.len() as int) =~= s);
    assert(pieces[0] == s.subrange(0, k));
    if k < s.len() {
        let rest = s.subrange(k + 1, s.len() as int);
        let others = crate::text::split_commas(rest);
        law_list_is_read_piecewise(rest);
        assert(forall|i: int| 0 <= i < others.len() ==> pieces[i + 1] == #[trigger] others[i]);
        assert(forall|i: int| 0 < i < pieces.len() ==> #[trigger] pieces[i] == others[i - 1]);
        if parsed(crate::text::trimmed(pieces[0])) is Ok {
            if let Err(message) = parsed_list(rest) {
                let i = choose|i: int|
                    {
                        &&& 0 <= i < others.len()
                        &&& parsed(crate::text::trimmed(#[trigger] others[i])) == Err::<
                            EventArgView,
                            Seq<char>,
                        >(message)
                        &&& forall|j: int|
                            0 <= j < i ==> parsed(crate::text::trimmed(#[trigger] others[j])) is Ok
                    };
                assert(pieces[i + 1] == others[i]);
            }
        }
    }
}

/// Whatever is read holds at least one primitive type.
pub proof fn law_parsed_holds_a_primitive(s: Seq<char>)
    ensures
        parsed(s) matches Ok(arg) ==> primitives_of(arg).len() > 0,
    decreases s.len(), 0nat,
{
    if vec_open().is_prefix_of(s) {
        if s.last() == '>' {
            law_parsed_holds_a_primitive(s.subrange(4, s.len() - 1));
        }
    } else if option_open().is_prefix_of(s) {
        if s.last() == '>' {
            law_parsed_holds_a_primitive(s.subrange(7, s.len() - 1));
        }
    } else if s.len() > 0 && s[0] == '(' {
        if s.last() == ')' {
            lemma_parsed_list_holds_a_primitive(s.subrange(1, s.len() - 1));
        }
    }
}

proof fn lemma_parsed_list_holds_a_primitive(s: Seq<char>)
    ensures
        parsed_list(s) matches Ok(args) ==> primitives_of_all(args).len() > 0,
    decreases s.len(), 1nat,
{
    let k = crate::text::comma_at(s);
    crate::text::lemma_comma_at(s);
    crate::text::lemma_trimmed_len(s.subrange(0, k));
    let first = crate::text::trimmed(s.subrange(0, k));
    law_parsed_holds_a_primitive(first);
    if k < s.len() {
        let rest = s.subrange(k + 1, s.len() as int);
        lemma_parsed_list_holds_a_primitive(rest);
        if let (Ok(arg), Ok(args)) = (parsed(first), parsed_list(rest)) {
            law_primitives_of_lists_in_a_row(seq![arg], args);
        }
    } else if let Ok(arg) = parsed(first) {
        lemma_primitives_of_one(arg);
    }
}

/// The primitive types of two lists in a row are those of the first, followed by those of the
/// second.
pub proof fn law_primitives_of_lists_in_a_row(first: Seq<EventArgView>, second: Seq<EventArgView>)
    ensures
        primitives_of_all(first + second) == primitives_of_all(first) + primitives_of_all(second),
    decreases second.len(),
{
    let all = first + second;
    if second.len() == 0 {
        assert(all =~= first);
        assert(primitives_of_all(second) =~= Seq::empty());
        assert(primitives_of_all(all) =~= primitives_of_all(first) + primitives_of_all(second));
    } else {
        law_primitives_of_lists_in_a_row(first, second.drop_last());
        assert(all.drop_last() =~= first + second.drop_last());
        assert(all.last() == second.last());
        assert(primitives_of_all(all) =~= primitives_of_all(first) + primitives_of_all(second));
    }
}

/// The primitive types of a list of one are those of its member.
proof fn lemma_primitives_of_one(arg: EventArgView)
    ensures
        primitives_of_all(seq![arg]) == primitives_of(arg),
{
    assert(seq![arg].drop_last() =~= Seq::empty());
    assert(primitives_of_all(Seq::<EventArgView>::empty()) =~= Seq::empty());
    assert(primitives_of_all(seq![arg]) =~= primitives_of(arg));
}

/// Text between `Vec<` and `>`, or between `Option<` and `>`, is read as it is read alone, and
/// what it gives is wrapped; text between parentheses is read as a list. What is wrong inside
/// is wrong with the whole.
pub proof fn law_brackets_wrap_what_is_inside(x: Seq<char>)
    ensures
        parsed(seq!['V', 'e', 'c', '<'] + x + seq!['>']) == match parsed(x) {
            Ok(arg) => Ok::<EventArgView, Seq<char>>(EventArgView::Vec(Box::new(arg))),
            Err(message) => Err(message),
        },
        parsed(seq!['O', 'p', 't', 'i', 'o', 'n', '<'] + x + seq!['>']) == match parsed(x) {
            Ok(arg) => Ok::<EventArgView, Seq<char>>(EventArgView::Option(Box::new(arg))),
            Err(message) => Err(message),
        },
        parsed(seq!['('] + x + seq![')']) == match parsed_list(x) {
            Ok(args) => Ok::<EventArgView, Seq<char>>(EventArgView::Tuple(args)),
            Err(message) => Err(message),
        },
{
    let v = seq!['V', 'e', 'c', '<'] + x + seq!['>'];
    assert(v.subrange(0, 4) =~= vec_open());
    assert(v.subrange(4, v.len() - 1) =~= x);
    let o = seq!['O', 'p', 't', 'i', 'o', 'n', '<'] + x + seq!['>'];
    assert(o.subrange(0, 7) =~= option_open());
    assert(o.subrange(7, o.len() - 1) =~= x);
    assert(o[0] == 'O' && vec_open()[0] == 'V');
    let t = seq!['('] + x + seq![')'];
    assert(t[0] == '(' && vec_open()[0] == 'V' && option_open()[0] == 'O');
    assert(t.subrange(1, t.len() - 1) =~= x);
}

/// Text that opens a bracket and does not end in the bracket that closes it is refused: the
/// message is the text, after a word on what was expected where it opens with `Option<`.
pub proof fn law_unclosed_brackets_are_refused(x: Seq<char>)
    ensures
        x.len() == 0 || x.last() != '>' ==> {
            let v = seq!['V', 'e', 'c', '<'] + x;
            let o = seq!['O', 'p', 't', 'i', 'o', 'n', '<'] + x;
            &&& parsed(v) == Err::<EventArgView, Seq<char>>(v)
            &&& parsed(o) == Err::<EventArgView, Seq<char>>(
                "Expected closing `>` for `Option` got: "@ + o,
            )
        },
        x.len() == 0 || x.last() != ')' ==> parsed(seq!['('] + x) == Err::<
            EventArgView,
            Seq<char>,
        >(seq!['('] + x),
{
    let v = seq!['V', 'e', 'c', '<'] + x;
    assert(v.subrange(0, 4) =~= vec_open());
    let o = seq!['O', 'p', 't', 'i', 'o', 'n', '<'] + x;
    assert(o.subrange(0, 7) =~= option_open());
    assert(o[0] == 'O' && vec_open()[0] == 'V');
    let t = seq!['('] + x;
    assert(t[0] == '(' && vec_open()[0] == 'V' && option_open()[0] == 'O');
    if x.len() > 0 {
        assert(v.last() == x.last());
        assert(o.last() == x.last());
        assert(t.last() == x.last());
    }
}

/// Text that opens no bracket is a primitive type of that name.
pub proof fn law_other_text_is_primitive(s: Seq<char>)
    requires
        !seq!['V', 'e', 'c', '<'].is_prefix_of(s),
        !seq!['O', 'p', 't', 'i', 'o', 'n', '<'].is_prefix_of(s),
        s.len() == 0 || s[0] != '(',
    ensures
        parsed(s) == Ok::<EventArgView, Seq<char>>(EventArgView::Primitive(s)),
{
    assert(vec_open() =~= seq!['V', 'e', 'c', '<']);
    assert(option_open() =~= seq!['O', 'p', 't', 'i', 'o', 'n', '<']);
}

/// A primitive type is its own only primitive type, brackets add and take none, and a tuple
/// has those of its members.
pub proof fn law_primitives_are_those_inside(
    name: Seq<char>,
    arg: EventArgView,
    first: Seq<EventArgView>,
    second: Seq<EventArgView>,
)
    ensures
        primitives_of(EventArgView::Primitive(name)) == seq![name],
        primitives_of(EventArgView::Vec(Box::new(arg))) == primitives_of(arg),
        primitives_of(EventArgView::Option(Box::new(arg))) == primitives_of(arg),
        primitives_of(EventArgView::Tuple(Seq::empty())) == Seq::<Seq<char>>::empty(),
        primitives_of(EventArgView::Tuple(seq![arg])) == primitives_of(arg),
        primitives_of(EventArgView::Tuple(first + second)) == primitives_of(
            EventArgView::Tuple(first),
        ) + primitives_of(EventArgView::Tuple(second)),
{
    lemma_primitives_of_one(arg);
    law_primitives_of_lists_in_a_row(first, second);
    reveal_with_fuel(primitives_of, 2);
    reveal_with_fuel(primitives_of_all, 2);
}

/// What an argument stands for is all that it holds.
pub proof fn law_model_holds_everything(
    name: String,
    inner: EventArg,
    args: Vec<EventArg>,
    strings: Seq<String>,
)
    ensures
        EventArg::Primitive(name).model() == EventArgView::Primitive(name@),
        EventArg::Vec(Box::new(inner)).model() == EventArgView::Vec(Box::new(inner.model())),
        EventArg::Option(Box::new(inner)).model() == EventArgView::Option(Box::new(inner.model())),
        EventArg::Tuple(args).model() matches EventArgView::Tuple(members) && members.len()
            == args@.len() && forall|i: int|
            0 <= i < args@.len() ==> #[trigger] members[i] == args@[i].model(),
        texts(strings).len() == strings.len(),
        forall|i: int| 0 <= i < strings.len() ==> #[trigger] texts(strings)[i] == strings[i]@,
{
    reveal_with_fuel(EventArg::model, 2);
    reveal_with_fuel(models, 2);
}

} // verus!
