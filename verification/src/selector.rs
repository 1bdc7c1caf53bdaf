//! Which authenticator to forward.

use vstd::prelude::*;

use crate::text::{
    at_most, chars_of, contains, first_chars, is_white_space, lowercase, occurs, push, text_of,
    to_lowercase, trim, trimmed,
};

verus! {

/// HID usage page of a FIDO authenticator.
pub const FIDO_USAGE_PAGE: u16 = 0xf1d0;

/// HID usage of a CTAPHID interface.
pub const FIDO_USAGE: u16 = 0x0001;

/// How much of a product name is announced.
pub const PRODUCT_NAME_LENGTH: usize = 80;

/// A selector, as a mathematical value.
pub enum Selector {
    VidPid(u16, u16),
    Text(Seq<char>),
}

/// What the user asks for: a USB vendor and product, or text that occurs in what the
/// device says of itself.
#[derive(Debug, PartialEq)]
pub enum FidoSelector<'a> {
    VidPid(u16, u16),
    Text(&'a str),
}

impl<'a> View for FidoSelector<'a> {
    type V = Selector;

    open spec fn view(&self) -> Selector {
        match self {
            FidoSelector::VidPid(vendor, product) => Selector::VidPid(*vendor, *product),
            FidoSelector::Text(text) => Selector::Text(text@),
        }
    }
}

/// The value of a hexadecimal digit.
pub open spec fn hex_digit(c: char) -> Option<nat> {
    if '0' <= c <= '9' {
        Some((c as u32 - '0' as u32) as nat)
    } else if 'a' <= c <= 'f' {
        Some((c as u32 - 'a' as u32 + 10) as nat)
    } else if 'A' <= c <= 'F' {
        Some((c as u32 - 'A' as u32 + 10) as nat)
    } else {
        None
    }
}

/// Every character is a hexadecimal digit.
pub open spec fn all_hex(digits: Seq<char>) -> bool {
    forall|i: int| 0 <= i < digits.len() ==> hex_digit(#[trigger] digits[i]) is Some
}

/// The value of hexadecimal digits.
pub open spec fn hex_value(digits: Seq<char>) -> nat
    decreases digits.len(),
{
    if digits.len() == 0 {
        0
    } else {
        hex_value(digits.drop_last()) * 16 + hex_digit(digits.last())->0
    }
}

/// The 16-bit number that text writes in hexadecimal, after an optional plus sign.
pub open spec fn hex_number(text: Seq<char>) -> Option<u16> {
    let digits = if text.len() > 0 && text[0] == '+' {
        text.skip(1)
    } else {
        text
    };
    if digits.len() > 0 && all_hex(digits) && hex_value(digits) <= u16::MAX {
        Some(hex_value(digits) as u16)
    } else {
        None
    }
}

/// The text without a hexadecimal prefix.
pub open spec fn without_prefix(text: Seq<char>) -> Seq<char> {
    if text.len() >= 2 && text[0] == '0' && (text[1] == 'x' || text[1] == 'X') {
        text.skip(2)
    } else {
        text
    }
}

/// The one colon in a text stands there.
pub open spec fn only_colon(text: Seq<char>, at: int) -> bool {
    0 <= at < text.len() && forall|i: int|
        0 <= i < text.len() ==> ((#[trigger] text[i] == ':') == (i == at))
}

/// The vendor and product that text writes, if it writes them: two hexadecimal numbers
/// with a colon between them.
pub open spec fn vid_pid(text: Seq<char>) -> Option<(u16, u16)> {
    if exists|at: int| only_colon(text, at) {
        let at = choose|at: int| only_colon(text, at);
        match (
            hex_number(without_prefix(text.take(at))),
            hex_number(without_prefix(text.skip(at + 1))),
        ) {
            (Some(vendor), Some(product)) => Some((vendor, product)),
            _ => None,
        }
    } else {
        None
    }
}

/// What text selects.
pub open spec fn selected(text: Seq<char>) -> Selector {
    match vid_pid(trimmed(text)) {
        Some((vendor, product)) => Selector::VidPid(vendor, product),
        None => Selector::Text(trimmed(text)),
    }
}

fn read_hex_digit(c: char) -> (digit: Option<u32>)
    ensures
        match digit {
            Some(value) => hex_digit(c) == Some(value as nat) && value < 16,
            None => hex_digit(c) is None,
        },
{
    let code: u32 = c as u32;
    if '0' <= c && c <= '9' {
        Some(code - '0' as u32)
    } else if 'a' <= c && c <= 'f' {
        Some(code - 'a' as u32 + 10)
    } else if 'A' <= c && c <= 'F' {
        Some(code - 'A' as u32 + 10)
    } else {
        None
    }
}

/// Further digits do not make a number smaller.
proof fn lemma_hex_value_grows(digits: Seq<char>, count: int)
    requires
        0 <= count <= digits.len(),
        all_hex(digits),
    ensures
        hex_value(digits.take(count)) <= hex_value(digits),
    decreases digits.len(),
{
    if count == digits.len() {
        assert(digits.take(count) =~= digits);
    } else {
        assert(all_hex(digits.drop_last())) by {
            assert forall|i: int| 0 <= i < digits.drop_last().len() implies hex_digit(
                #[trigger] digits.drop_last()[i],
            ) is Some by {
                assert(digits.drop_last()[i] == digits[i]);
            }
        }
        lemma_hex_value_grows(digits.drop_last(), count);
        assert(digits.drop_last().take(count) =~= digits.take(count));
    }
}

/// Reads the number in `chars[from..to]`.
fn read_hex_number(chars: &Vec<char>, from: usize, to: usize) -> (number: Option<u16>)
    requires
        from <= to <= chars@.len(),
    ensures
        number == hex_number(chars@.subrange(from as int, to as int)),
{
    let ghost text = chars@.subrange(from as int, to as int);
    let start: usize = if from < to && chars[from] == '+' {
        from + 1
    } else {
        from
    };
    let ghost digits = chars@.subrange(start as int, to as int);
    assert(digits =~= if text.len() > 0 && text[0] == '+' {
        text.skip(1)
    } else {
        text
    });
    if start == to {
        return None;
    }
    let mut value: u32 = 0;
    let mut at: usize = start;
    while at < to
        invariant
            start <= at <= to <= chars@.len(),
            start < to,
            text == chars@.subrange(from as int, to as int),
            digits == chars@.subrange(start as int, to as int),
            all_hex(digits.take(at - start)),
            value == hex_value(digits.take(at - start)),
            value <= 0xffff,
            hex_number(text) == (if all_hex(digits) && hex_value(digits) <= u16::MAX {
                Some(hex_value(digits) as u16)
            } else {
                None
            }),
        decreases to - at,
    {
        let ghost next = digits.take(at - start + 1);
        assert(next.drop_last() =~= digits.take(at - start));
        assert(next.last() == chars@[at as int]);
        match read_hex_digit(chars[at]) {
            None => {
                assert(digits[at - start] == chars@[at as int]);
                assert(!all_hex(digits));
                return None;
            },
            Some(digit) => {
                value = value * 16 + digit;
                assert(all_hex(next)) by {
                    assert forall|i: int| 0 <= i < next.len() implies hex_digit(
                        #[trigger] next[i],
                    ) is Some by {
                        if i < at - start {
                            assert(next[i] == digits.take(at - start)[i]);
                        }
                    }
                }
                assert(value == hex_value(next));
                if value > 0xffff {
                    proof {
                        if all_hex(digits) {
                            lemma_hex_value_grows(digits, at - start + 1);
                        }
                    }
                    return None;
                }
            },
        }
        at += 1;
    }
    assert(digits.take(to - start) =~= digits);
    Some(value as u16)
}

/// Reads the number in `chars[from..to]`, with or without a hexadecimal prefix.
fn read_prefixed_number(chars: &Vec<char>, from: usize, to: usize) -> (number: Option<u16>)
    requires
        from <= to <= chars@.len(),
    ensures
        number == hex_number(without_prefix(chars@.subrange(from as int, to as int))),
{
    let ghost text = chars@.subrange(from as int, to as int);
    let start: usize = if to - from >= 2 && chars[from] == '0' && (chars[from + 1] == 'x'
        || chars[from + 1] == 'X') {
        from + 2
    } else {
        from
    };
    assert(chars@.subrange(start as int, to as int) =~= without_prefix(text));
    read_hex_number(chars, start, to)
}

/// The place of the only colon.
fn find_only_colon(chars: &Vec<char>) -> (found: Option<usize>)
    ensures
        match found {
            Some(at) => only_colon(chars@, at as int),
            None => !exists|at: int| only_colon(chars@, at),
        },
{
    let mut found: Option<usize> = None;
    let mut at: usize = 0;
    while at < chars.len()
        invariant
            at <= chars@.len(),
            match found {
                Some(place) => place < at && forall|i: int|
                    0 <= i < at ==> ((#[trigger] chars@[i] == ':') == (i == place)),
                None => forall|i: int| 0 <= i < at ==> #[trigger] chars@[i] != ':',
            },
        decreases chars@.len() - at,
    {
        if chars[at] == ':' {
            if let Some(place) = found {
                proof {
                    assert forall|other: int| !only_colon(chars@, other) by {
                        if only_colon(chars@, other) {
                            assert(chars@[place as int] == ':');
                            assert(chars@[at as int] == ':');
                        }
                    }
                }
                return None;
            }
            found = Some(at);
        }
        at += 1;
    }
    proof {
        if found is None {
            assert forall|other: int| !only_colon(chars@, other) by {
                if only_colon(chars@, other) {
                    assert(chars@[other] == ':');
                }
            }
        }
    }
    found
}

impl<'a> FidoSelector<'a> {
    /// Reads a selector.
    pub fn parse(value: &'a str) -> (selector: Self)
        ensures
            selector@ == selected(value@),
    {
        let value = trim(value);
        let chars = chars_of(value);
        if let Some(at) = find_only_colon(&chars) {
            let vendor = read_prefixed_number(&chars, 0, at);
            let product = read_prefixed_number(&chars, at + 1, chars.len());
            proof {
                let place = choose|place: int| only_colon(value@, place);
                assert(only_colon(value@, at as int));
                assert(value@[place] == ':');
                assert(place == at);
                assert(value@.subrange(0, at as int) =~= value@.take(place));
                assert(value@.subrange(at as int + 1, value@.len() as int) =~= value@.skip(
                    place + 1,
                ));
            }
            if let (Some(vendor), Some(product)) = (vendor, product) {
                return FidoSelector::VidPid(vendor, product);
            }
        }
        FidoSelector::Text(value)
    }
}

/// What a HID interface says of itself, as a mathematical value.
pub struct Candidate {
    pub path: Seq<char>,
    pub usage_page: u16,
    pub usage: u16,
    pub vendor_id: u16,
    pub product_id: u16,
    pub manufacturer: Option<Seq<char>>,
    pub product: Option<Seq<char>>,
    pub serial_number: Option<Seq<char>>,
}

/// What a HID interface says of itself.
#[derive(Clone, Debug, PartialEq)]
pub struct HidCandidate {
    pub path: String,
    pub usage_page: u16,
    pub usage: u16,
    pub vendor_id: u16,
    pub product_id: u16,
    pub manufacturer: Option<String>,
    pub product: Option<String>,
    pub serial_number: Option<String>,
}

impl View for HidCandidate {
    type V = Candidate;

    open spec fn view(&self) -> Candidate {
        Candidate {
            path: self.path@,
            usage_page: self.usage_page,
            usage: self.usage,
            vendor_id: self.vendor_id,
            product_id: self.product_id,
            manufacturer: text_of(self.manufacturer),
            product: text_of(self.product),
            serial_number: text_of(self.serial_number),
        }
    }
}

/// The contents of an optional selector.
pub open spec fn wanted(selector: Option<FidoSelector>) -> Option<Selector> {
    match selector {
        Some(selector) => Some(selector@),
        None => None,
    }
}

/// The characters of an optional request.
pub open spec fn request_of(requested: Option<&str>) -> Option<Seq<char>> {
    match requested {
        Some(text) => Some(text@),
        None => None,
    }
}

/// The contents of a list of candidates.
pub open spec fn candidate_views(list: Seq<HidCandidate>) -> Seq<Candidate> {
    list.map_values(|candidate: HidCandidate| candidate@)
}

/// A text occurs in another, upper and lower case taken for the same.
pub open spec fn mentions(whole: Seq<char>, part: Seq<char>) -> bool {
    occurs(lowercase(part), lowercase(whole))
}

/// A text occurs in what a device says, if it says anything.
pub open spec fn says(whole: Option<Seq<char>>, part: Seq<char>) -> bool {
    whole matches Some(whole) && mentions(whole, part)
}

/// A candidate is a FIDO interface that the selector means.
pub open spec fn suits(candidate: Candidate, selector: Option<Selector>) -> bool {
    &&& candidate.usage_page == FIDO_USAGE_PAGE
    &&& candidate.usage == FIDO_USAGE
    &&& match selector {
        None => true,
        Some(Selector::VidPid(vendor, product)) => candidate.vendor_id == vendor
            && candidate.product_id == product,
        Some(Selector::Text(text)) => {
            ||| mentions(candidate.path, text)
            ||| says(candidate.manufacturer, text)
            ||| says(candidate.product, text)
            ||| says(candidate.serial_number, text)
        },
    }
}

/// The places of the candidates that the selector means, in order.
pub open spec fn matching(candidates: Seq<Candidate>, selector: Option<Selector>) -> Seq<int>
    decreases candidates.len(),
{
    if candidates.len() == 0 {
        seq![]
    } else {
        let before = matching(candidates.drop_last(), selector);
        if suits(candidates.last(), selector) {
            before.push(candidates.len() - 1)
        } else {
            before
        }
    }
}

/// Why no candidate is chosen, as a mathematical value.
pub enum Unselected {
    NotFound,
    NoMatch(Seq<char>),
    Ambiguous(Seq<char>, Seq<char>),
}

/// Why no candidate is chosen.
#[derive(Debug, PartialEq)]
pub enum SelectionError {
    /// There is no FIDO authenticator.
    NotFound,
    /// None is meant by what was asked for.
    NoMatch(String),
    /// Several are meant by what was asked for; they are listed.
    Ambiguous(String, String),
}

impl View for SelectionError {
    type V = Unselected;

    open spec fn view(&self) -> Unselected {
        match self {
            SelectionError::NotFound => Unselected::NotFound,
            SelectionError::NoMatch(requested) => Unselected::NoMatch(requested@),
            SelectionError::Ambiguous(requested, candidates) => Unselected::Ambiguous(
                requested@,
                candidates@,
            ),
        }
    }
}

/// The name of a product, whether or not it has one.
pub open spec fn name_of(product: Option<Seq<char>>) -> Seq<char> {
    match product {
        Some(name) => name,
        None => "FIDO authenticator"@,
    }
}

/// The character of a hexadecimal digit, in lower case.
pub open spec fn digit_char(digit: int) -> char {
    if digit < 10 {
        ('0' as u32 + digit) as char
    } else {
        ('a' as u32 + digit - 10) as char
    }
}

/// Four hexadecimal digits.
pub open spec fn hex_text(number: u16) -> Seq<char> {
    seq![
        digit_char(number as int / 0x1000),
        digit_char(number as int / 0x100 % 0x10),
        digit_char(number as int / 0x10 % 0x10),
        digit_char(number as int % 0x10),
    ]
}

/// How a candidate is listed.
pub open spec fn description(candidate: Candidate) -> Seq<char> {
    name_of(candidate.product) + " ("@ + hex_text(candidate.vendor_id) + ":"@ + hex_text(
        candidate.product_id,
    ) + ", "@ + candidate.path + ")"@
}

/// The list of the candidates at the given places.
pub open spec fn listing(candidates: Seq<Candidate>, places: Seq<int>) -> Seq<char>
    decreases places.len(),
{
    if places.len() == 0 {
        seq![]
    } else if places.len() == 1 {
        description(candidates[places[0]])
    } else {
        listing(candidates, places.drop_last()) + ", "@ + description(candidates[places.last()])
    }
}

/// What a request selects.
pub open spec fn selector_of(requested: Option<Seq<char>>) -> Option<Selector> {
    match requested {
        Some(text) => Some(selected(text)),
        None => None,
    }
}

/// The place of the candidate to forward, or why there is none. Without a request it is
/// the first authenticator; a request has to mean exactly one.
pub open spec fn chosen(candidates: Seq<Candidate>, requested: Option<Seq<char>>) -> Result<
    int,
    Unselected,
> {
    let places = matching(candidates, selector_of(requested));
    match requested {
        None => if places.len() == 0 {
            Err(Unselected::NotFound)
        } else {
            Ok(places[0])
        },
        Some(text) => if places.len() == 0 {
            Err(Unselected::NoMatch(text))
        } else if places.len() > 1 {
            Err(Unselected::Ambiguous(text, listing(candidates, places)))
        } else {
            Ok(places[0])
        },
    }
}

/// A text occurs in what a device says, if it says anything.
pub open spec fn occurs_in(part: Seq<char>, whole: Option<Seq<char>>) -> bool {
    whole matches Some(whole) && occurs(part, whole)
}

fn check_occurs_in(part: &str, whole: &Option<String>) -> (found: bool)
    ensures
        found == occurs_in(part@, text_of(*whole)),
{
    match whole {
        Some(whole) => contains(whole.as_str(), part),
        None => false,
    }
}

/// Tells whether a text occurs in any of what a device says of itself, all of it in lower
/// case.
pub fn occurs_in_any(
    part: &str,
    path: &str,
    manufacturer: &Option<String>,
    product: &Option<String>,
    serial_number: &Option<String>,
) -> (found: bool)
    ensures
        found == (occurs(part@, path@) || occurs_in(part@, text_of(*manufacturer)) || occurs_in(
            part@,
            text_of(*product),
        ) || occurs_in(part@, text_of(*serial_number))),
{
    contains(path, part) || check_occurs_in(part, manufacturer) || check_occurs_in(part, product)
        || check_occurs_in(part, serial_number)
}

fn lower(text: &Option<String>) -> (lower: Option<String>)
    ensures
        match text_of(*text) {
            Some(text) => text_of(lower) == Some(lowercase(text)),
            None => lower is None,
        },
{
    match text {
        Some(text) => Some(to_lowercase(text.as_str())),
        None => None,
    }
}

impl HidCandidate {
    /// Tells whether this is a FIDO interface that the selector means.
    pub fn suits(&self, selector: &Option<FidoSelector>) -> (suitable: bool)
        ensures
            suitable == suits(self@, wanted(*selector)),
    {
        if self.usage_page != FIDO_USAGE_PAGE || self.usage != FIDO_USAGE {
            return false;
        }
        match selector {
            None => true,
            Some(FidoSelector::VidPid(vendor, product)) => self.vendor_id == *vendor
                && self.product_id == *product,
            Some(FidoSelector::Text(text)) => {
                occurs_in_any(
                    to_lowercase(text).as_str(),
                    to_lowercase(self.path.as_str()).as_str(),
                    &lower(&self.manufacturer),
                    &lower(&self.product),
                    &lower(&self.serial_number),
                )
            },
        }
    }

    /// The name of the product, whether or not it has one.
    fn name(&self) -> (name: &str)
        ensures
            name@ == name_of(self@.product),
    {
        match &self.product {
            Some(name) => name.as_str(),
            None => "FIDO authenticator",
        }
    }

    /// The name under which the product is announced.
    pub fn product_name(&self) -> (name: String)
        ensures
            name@ == at_most(name_of(self@.product), PRODUCT_NAME_LENGTH as nat),
    {
        first_chars(self.name(), PRODUCT_NAME_LENGTH)
    }

    /// How the candidate is listed.
    pub fn description(&self) -> (text: String)
        ensures
            text@ == description(self@),
    {
        let mut text = self.name().to_owned();
        text.append(" (");
        push_hex(&mut text, self.vendor_id);
        text.append(":");
        push_hex(&mut text, self.product_id);
        text.append(", ");
        text.append(self.path.as_str());
        text.append(")");
        text
    }
}

fn digit_of(digit: u16) -> (c: char)
    requires
        digit < 16,
    ensures
        c == digit_char(digit as int),
{
    if digit < 10 {
        ('0' as u8 + digit as u8) as char
    } else {
        ('a' as u8 + digit as u8 - 10) as char
    }
}

/// Appends four hexadecimal digits.
fn push_hex(text: &mut String, number: u16)
    ensures
        final(text)@ == old(text)@ + hex_text(number),
{
    push(text, digit_of(number / 0x1000));
    push(text, digit_of(number / 0x100 % 0x10));
    push(text, digit_of(number / 0x10 % 0x10));
    push(text, digit_of(number % 0x10));
    assert(text@ =~= old(text)@ + hex_text(number));
}

/// The candidates at the given places, listed.
fn list_candidates(candidates: &Vec<HidCandidate>, places: &Vec<usize>) -> (text: String)
    requires
        forall|i: int| 0 <= i < places@.len() ==> #[trigger] places@[i] < candidates@.len(),
    ensures
        text@ == listing(candidate_views(candidates@), places@.map_values(|at: usize| at as int)),
{
    let ghost all = places@.map_values(|at: usize| at as int);
    let ghost views = candidate_views(candidates@);
    let mut text = String::new();
    let mut done: usize = 0;
    assert(text@ =~= seq![]);
    while done < places.len()
        invariant
            done <= places@.len(),
            views == candidate_views(candidates@),
            all == places@.map_values(|at: usize| at as int),
            forall|i: int| 0 <= i < places@.len() ==> #[trigger] places@[i] < candidates@.len(),
            text@ == listing(views, all.take(done as int)),
        decreases places@.len() - done,
    {
        assert(all.take(done as int + 1).drop_last() =~= all.take(done as int));
        assert(all.take(done as int + 1).last() == places@[done as int] as int);
        if done > 0 {
            text.append(", ");
        }
        let described = candidates[places[done]].description();
        text.append(described.as_str());
        assert(text@ =~= listing(views, all.take(done as int + 1)));
        done += 1;
    }
    assert(all.take(places@.len() as int) =~= all);
    text
}

/// Why no candidate was chosen, or which one was.
pub open spec fn choice_of(result: Result<usize, SelectionError>) -> Result<int, Unselected> {
    match result {
        Ok(at) => Ok(at as int),
        Err(err) => Err(err@),
    }
}

/// The places of the candidates that a request means.
fn matching_places(candidates: &Vec<HidCandidate>, requested: Option<&str>) -> (places: Vec<usize>)
    ensures
        places@.map_values(|at: usize| at as int) == matching(
            candidate_views(candidates@),
            selector_of(request_of(requested)),
        ),
        forall|i: int| 0 <= i < places@.len() ==> #[trigger] places@[i] < candidates@.len(),
{
    let selector = match requested {
        Some(text) => Some(FidoSelector::parse(text)),
        None => None,
    };
    let ghost views = candidate_views(candidates@);
    let mut places: Vec<usize> = Vec::new();
    let mut at: usize = 0;
    assert(places@.map_values(|at: usize| at as int) =~= seq![]);
    while at < candidates.len()
        invariant
            at <= candidates@.len(),
            views == candidate_views(candidates@),
            forall|i: int| 0 <= i < places@.len() ==> #[trigger] places@[i] < candidates@.len(),
            places@.map_values(|at: usize| at as int) == matching(
                views.take(at as int),
                wanted(selector),
            ),
        decreases candidates@.len() - at,
    {
        let ghost before = places@;
        assert(views.take(at as int + 1).drop_last() =~= views.take(at as int));
        assert(views.take(at as int + 1).last() == candidates@[at as int]@);
        if candidates[at].suits(&selector) {
            places.push(at);
            assert(places@.map_values(|at: usize| at as int) =~= before.map_values(
                |at: usize| at as int,
            ).push(at as int));
        }
        at += 1;
    }
    assert(views.take(candidates@.len() as int) =~= views);
    places
}

/// Chooses the candidate to forward.
pub fn choose_candidate(candidates: &Vec<HidCandidate>, requested: Option<&str>) -> (result: Result<
    usize,
    SelectionError,
>)
    ensures
        choice_of(result) == chosen(candidate_views(candidates@), request_of(requested)),
        result matches Ok(at) ==> at < candidates@.len(),
{
    let places = matching_places(candidates, requested);
    let ghost all = places@.map_values(|at: usize| at as int);
    assert(places@.len() > 0 ==> all[0] == places@[0]);
    match requested {
        None => {
            if places.len() == 0 {
                Err(SelectionError::NotFound)
            } else {
                Ok(places[0])
            }
        },
        Some(text) => {
            if places.len() == 0 {
                Err(SelectionError::NoMatch(text.to_owned()))
            } else if places.len() > 1 {
                let listed = list_candidates(candidates, &places);
                Err(SelectionError::Ambiguous(text.to_owned(), listed))
            } else {
                Ok(places[0])
            }
        },
    }
}

/// The first of several authenticators is taken for want of a request. The user is warned
/// of that.
pub open spec fn first_of_several(candidates: Seq<Candidate>, requested: Option<Seq<char>>) -> bool {
    requested is None && matching(candidates, None).len() > 1
}

/// Tells whether the first of several authenticators is taken for want of a request.
pub fn takes_first_of_several(candidates: &Vec<HidCandidate>, requested: Option<&str>) -> (several:
    bool)
    ensures
        several == first_of_several(candidate_views(candidates@), request_of(requested)),
{
    let places = matching_places(candidates, requested);
    let ghost all = places@.map_values(|at: usize| at as int);
    assert(all.len() == places@.len());
    requested.is_none() && places.len() > 1
}

proof fn lemma_matching(candidates: Seq<Candidate>, selector: Option<Selector>)
    ensures
        ({
            let places = matching(candidates, selector);
            &&& forall|i: int|
                0 <= i < places.len() ==> 0 <= #[trigger] places[i] < candidates.len() && suits(
                    candidates[places[i]],
                    selector,
                )
            &&& forall|i: int, j: int|
                0 <= i < j < places.len() ==> #[trigger] places[i] < #[trigger] places[j]
            &&& forall|at: int|
                0 <= at < candidates.len() && suits(#[trigger] candidates[at], selector)
                    ==> places.contains(at)
        }),
    decreases candidates.len(),
{
    if candidates.len() > 0 {
        let rest = candidates.drop_last();
        lemma_matching(rest, selector);
        let before = matching(rest, selector);
        let places = matching(candidates, selector);
        assert forall|at: int|
            0 <= at < candidates.len() && suits(
                #[trigger] candidates[at],
                selector,
            ) implies places.contains(at) by {
            if at < rest.len() {
                assert(rest[at] == candidates[at]);
                let i = choose|i: int| 0 <= i < before.len() && before[i] == at;
                assert(places[i] == at);
            } else {
                assert(places[places.len() - 1] == at);
            }
        }
    }
}

/// The candidate that is chosen is a FIDO interface. Without a request it is the first;
/// with one it is the only one that the request means. Where none is chosen without there
/// being several, none suits.
pub proof fn selection_is_unambiguous(
    candidates: Seq<Candidate>,
    requested: Option<Seq<char>>,
    other: int,
)
    requires
        0 <= other < candidates.len(),
    ensures
        match chosen(candidates, requested) {
            Ok(at) => {
                &&& 0 <= at < candidates.len()
                &&& suits(candidates[at], selector_of(requested))
                &&& candidates[at].usage_page == FIDO_USAGE_PAGE
                &&& candidates[at].usage == FIDO_USAGE
                &&& suits(candidates[other], selector_of(requested)) ==> if requested is Some {
                    other == at
                } else {
                    at <= other
                }
            },
            Err(Unselected::Ambiguous(_, _)) => requested is Some,
            Err(_) => !suits(candidates[other], selector_of(requested)),
        },
{
    let selector = selector_of(requested);
    let places = matching(candidates, selector);
    lemma_matching(candidates, selector);
    if suits(candidates[other], selector) {
        let i = choose|i: int| 0 <= i < places.len() && places[i] == other;
        assert(places[0] <= places[i]);
    }
}

/// The sixteen hexadecimal digits have their values, in lower and in upper case, and nothing
/// else is one.
pub proof fn hexadecimal_digits_have_their_values(c: char)
    ensures
        0x30 <= c as u32 <= 0x39 ==> hex_digit(c) == Some((c as u32 - 0x30) as nat),
        0x61 <= c as u32 <= 0x66 ==> hex_digit(c) == Some((c as u32 - 0x61 + 10) as nat),
        0x41 <= c as u32 <= 0x46 ==> hex_digit(c) == Some((c as u32 - 0x41 + 10) as nat),
        !(0x30 <= c as u32 <= 0x39) && !(0x61 <= c as u32 <= 0x66) && !(0x41 <= c as u32 <= 0x46)
            ==> hex_digit(c) is None,
{
    let code = c as u32;
    assert(code == c);
}

proof fn lemma_digit_char(digit: int)
    requires
        0 <= digit < 16,
    ensures
        hex_digit(digit_char(digit)) == Some(digit as nat),
        digit_char(digit) != ':',
        digit_char(digit) != '+',
        digit_char(digit) != 'x',
        digit_char(digit) != 'X',
        !is_white_space(digit_char(digit)),
{
    let c = digit_char(digit);
    if digit < 10 {
        assert(c as u32 == '0' as u32 + digit);
    } else {
        assert(c as u32 == 'a' as u32 + digit - 10);
    }
}

proof fn lemma_hex_text(number: u16)
    ensures
        hex_text(number).len() == 4,
        hex_number(hex_text(number)) == Some(number),
        without_prefix(hex_text(number)) == hex_text(number),
        forall|i: int|
            0 <= i < 4 ==> #[trigger] hex_text(number)[i] != ':' && !is_white_space(
                hex_text(number)[i],
            ),
{
    let digits = hex_text(number);
    let (a, b, c, d) = (
        number as int / 0x1000,
        number as int / 0x100 % 0x10,
        number as int / 0x10 % 0x10,
        number as int % 0x10,
    );
    lemma_digit_char(a);
    lemma_digit_char(b);
    lemma_digit_char(c);
    lemma_digit_char(d);
    assert(all_hex(digits));
    reveal_with_fuel(hex_value, 5);
    assert(digits.drop_last().drop_last().drop_last().drop_last() =~= seq![]);
    assert(digits.last() == digit_char(d));
    assert(digits.drop_last().last() == digit_char(c));
    assert(digits.drop_last().drop_last().last() == digit_char(b));
    assert(digits.drop_last().drop_last().drop_last().last() == digit_char(a));
    assert(hex_value(digits) == a * 0x1000 + b * 0x100 + c * 0x10 + d);
}

/// Two numbers of four hexadecimal digits with a colon between them select the vendor and the
/// product that they write, in this order, with a hexadecimal prefix before either, both or
/// none.
pub proof fn vendors_come_before_products(
    vendor: u16,
    product: u16,
    first: Seq<char>,
    second: Seq<char>,
)
    requires
        first == Seq::<char>::empty() || first == seq!['0', 'x'] || first == seq!['0', 'X'],
        second == Seq::<char>::empty() || second == seq!['0', 'x'] || second == seq!['0', 'X'],
    ensures
        selected(first + hex_text(vendor) + seq![':'] + second + hex_text(product))
            == Selector::VidPid(vendor, product),
{
    lemma_prefixed(first, vendor);
    lemma_prefixed(second, product);
    let left = first + hex_text(vendor);
    let right = second + hex_text(product);
    assert(first + hex_text(vendor) + seq![':'] + second + hex_text(product) =~= left + seq![':']
        + right);
    lemma_two_numbers(left, right);
}

/// A number with or without a prefix reads as itself, and holds neither a colon nor white
/// space.
proof fn lemma_prefixed(prefix: Seq<char>, number: u16)
    requires
        prefix == Seq::<char>::empty() || prefix == seq!['0', 'x'] || prefix == seq!['0', 'X'],
    ensures
        ({
            let text = prefix + hex_text(number);
            &&& text.len() > 0
            &&& hex_number(without_prefix(text)) == Some(number)
            &&& forall|i: int|
                0 <= i < text.len() ==> #[trigger] text[i] != ':' && !is_white_space(text[i])
        }),
{
    lemma_hex_text(number);
    let text = prefix + hex_text(number);
    if prefix.len() > 0 {
        assert(text.skip(2) =~= hex_text(number));
    } else {
        assert(text =~= hex_text(number));
    }
    assert forall|i: int| 0 <= i < text.len() implies #[trigger] text[i] != ':' && !is_white_space(
        text[i],
    ) by {
        if i < prefix.len() {
            assert(text[i] == prefix[i]);
            assert(!is_white_space('0') && !is_white_space('x') && !is_white_space('X'));
        } else {
            assert(text[i] == hex_text(number)[i - prefix.len()]);
        }
    }
}

/// Two numbers with a colon between them select what they read as.
proof fn lemma_two_numbers(left: Seq<char>, right: Seq<char>)
    requires
        left.len() > 0,
        right.len() > 0,
        hex_number(without_prefix(left)) is Some,
        hex_number(without_prefix(right)) is Some,
        forall|i: int|
            0 <= i < left.len() ==> #[trigger] left[i] != ':' && !is_white_space(left[i]),
        forall|i: int|
            0 <= i < right.len() ==> #[trigger] right[i] != ':' && !is_white_space(right[i]),
    ensures
        selected(left + seq![':'] + right) == Selector::VidPid(
            hex_number(without_prefix(left))->0,
            hex_number(without_prefix(right))->0,
        ),
{
    let text = left + seq![':'] + right;
    let at = left.len() as int;
    assert(text.take(at) =~= left);
    assert(text.skip(at + 1) =~= right);
    assert forall|i: int| 0 <= i < text.len() implies ((#[trigger] text[i] == ':') == (i == at)) by {
        if i < at {
            assert(text[i] == left[i]);
        } else if i > at {
            assert(text[i] == right[i - at - 1]);
        }
    }
    assert(only_colon(text, at));
    let found = choose|found: int| only_colon(text, found);
    assert(text[found] == ':');
    assert(found == at);
    assert(text[0] == left[0]);
    assert(text.last() == right[right.len() - 1]);
    assert(trimmed(text) == text);
}

/// Without a colon, and with more than one, a request selects by the text itself, without
/// white space at either end.
pub proof fn other_requests_select_by_text(text: Seq<char>, one: int, other: int)
    ensures
        (forall|i: int| 0 <= i < trimmed(text).len() ==> #[trigger] trimmed(text)[i] != ':')
            ==> selected(text) == Selector::Text(trimmed(text)),
        0 <= one < other < trimmed(text).len() && trimmed(text)[one] == ':' && trimmed(text)[other]
            == ':' ==> selected(text) == Selector::Text(trimmed(text)),
        selected(text) matches Selector::Text(wanted) ==> wanted == trimmed(text),
{
    let rest = trimmed(text);
    if exists|at: int| only_colon(rest, at) {
        let at = choose|at: int| only_colon(rest, at);
        assert(rest[at] == ':');
    }
}

/// One digit is a number, and nothing, alone or after a plus sign, is none. A plus sign
/// before a number makes no difference.
pub proof fn plus_signs_are_taken(number: u16, digit: char)
    ensures
        hex_digit(digit) matches Some(value) ==> (hex_number(seq![digit]) matches Some(found)
            && found == value),
        hex_number(seq![]) is None,
        hex_number(seq!['+']) is None,
        hex_number(seq!['+'] + hex_text(number)) == Some(number),
{
    lemma_hex_text(number);
    assert((seq!['+'] + hex_text(number)).skip(1) =~= hex_text(number));
    assert(seq!['+'].skip(1) =~= seq![]);
    reveal_with_fuel(hex_value, 2);
    assert(seq![digit].drop_last() =~= seq![]);
}

/// A number of more than 16 bits is none.
pub proof fn large_identifiers_are_none(digit: char, number: u16)
    requires
        hex_digit(digit) is Some,
        hex_digit(digit) != Some(0nat),
    ensures
        hex_number(seq![digit] + hex_text(number)) is None,
{
    lemma_hex_text(number);
    let digits = seq![digit] + hex_text(number);
    reveal_with_fuel(hex_value, 6);
    assert(digits.drop_last().drop_last().drop_last().drop_last() =~= seq![digit]);
    assert(seq![digit].drop_last() =~= seq![]);
    assert(digits.drop_last().drop_last().drop_last().drop_last().last() == digit);
    assert(hex_value(seq![digit]) == hex_digit(digit)->0);
    lemma_more_digits(digits.drop_last());
    lemma_more_digits(digits.drop_last().drop_last());
    lemma_more_digits(digits.drop_last().drop_last().drop_last());
}

proof fn lemma_more_digits(digits: Seq<char>)
    ensures
        digits.len() > 0 ==> hex_value(digits) >= hex_value(digits.drop_last()) * 16,
{
}

/// An interface is meant only where it is a FIDO one: usage page 0xf1d0 and usage 1. Of those
/// every one is meant without a request; by vendor and product, those that have both; by
/// text, those that say it in their path, or as their manufacturer, their product or their
/// serial number, whatever the case of its letters.
pub proof fn interfaces_suit_what_they_say(
    candidate: Candidate,
    vendor: u16,
    product: u16,
    text: Seq<char>,
)
    ensures
        ({
            let fido = candidate.usage_page == 0xf1d0 && candidate.usage == 1;
            let found = |said: Seq<char>| occurs(lowercase(text), lowercase(said));
            &&& suits(candidate, None) <==> fido
            &&& suits(candidate, Some(Selector::VidPid(vendor, product))) <==> fido
                && candidate.vendor_id == vendor && candidate.product_id == product
            &&& suits(candidate, Some(Selector::Text(text))) <==> fido && (found(candidate.path)
                || (candidate.manufacturer is Some && found(candidate.manufacturer->0)) || (
            candidate.product is Some && found(candidate.product->0)) || (candidate.serial_number
                is Some && found(candidate.serial_number->0)))
        }),
{
}

/// A text occurs in what holds it, wherever it stands there, and nowhere else.
pub proof fn texts_occur_where_they_stand(before: Seq<char>, part: Seq<char>, after: Seq<char>)
    ensures
        occurs(part, before + part + after),
        occurs(part, after) ==> exists|from: int, to: int|
            0 <= from <= to <= after.len() && #[trigger] after.subrange(from, to) == part,
{
    let whole = before + part + after;
    let at = before.len() as int;
    assert(whole.subrange(at, at + part.len()) =~= part);
    if occurs(part, after) {
        let from = choose|from: int|
            0 <= from <= after.len() - part.len() && #[trigger] after.subrange(
                from,
                from + part.len(),
            ) == part;
        assert(after.subrange(from, from + part.len()) == part);
    }
}

/// A request that means no interface is told as it was made. One that means several is told
/// with them: each of them is listed. Without a request there is no error but that there is
/// no authenticator at all, and the user is warned exactly where there are several.
pub proof fn requests_that_fail_are_told(
    candidates: Seq<Candidate>,
    requested: Option<Seq<char>>,
    one: int,
    other: int,
)
    requires
        0 <= one < other < candidates.len(),
    ensures
        chosen(candidates, requested) matches Err(Unselected::NoMatch(text)) ==> requested == Some(
            text,
        ),
        chosen(candidates, requested) matches Err(Unselected::NotFound) ==> requested is None,
        chosen(candidates, requested) matches Err(Unselected::Ambiguous(text, listed)) ==> {
            &&& requested == Some(text)
            &&& suits(candidates[one], selector_of(requested)) ==> occurs(
                description(candidates[one]),
                listed,
            )
            &&& suits(candidates[other], selector_of(requested)) ==> occurs(
                description(candidates[other]),
                listed,
            )
        },
        suits(candidates[one], selector_of(requested)) && suits(
            candidates[other],
            selector_of(requested),
        ) ==> {
            &&& requested is Some ==> (chosen(candidates, requested) matches Err(
                Unselected::Ambiguous(_, _),
            ))
            &&& first_of_several(candidates, requested) <==> requested is None
        },
        requested is Some ==> !first_of_several(candidates, requested),
{
    let selector = selector_of(requested);
    let places = matching(candidates, selector);
    lemma_matching(candidates, selector);
    if suits(candidates[one], selector) {
        let i = choose|i: int| 0 <= i < places.len() && places[i] == one;
        lemma_listed(candidates, places, i);
        if suits(candidates[other], selector) {
            let j = choose|j: int| 0 <= j < places.len() && places[j] == other;
            assert(i != j);
        }
    }
    if suits(candidates[other], selector) {
        let j = choose|j: int| 0 <= j < places.len() && places[j] == other;
        lemma_listed(candidates, places, j);
    }
}

/// A warning is given only where there are several authenticators.
pub proof fn one_authenticator_needs_no_warning(candidates: Seq<Candidate>, only: int)
    requires
        0 <= only < candidates.len(),
        forall|at: int|
            0 <= at < candidates.len() && at != only ==> !suits(#[trigger] candidates[at], None),
    ensures
        !first_of_several(candidates, None),
{
    lemma_matching(candidates, None);
    let places = matching(candidates, None);
    if places.len() > 1 {
        assert(places[0] < places[1]);
        assert(suits(candidates[places[0]], None));
        assert(suits(candidates[places[1]], None));
    }
}

proof fn lemma_listed(candidates: Seq<Candidate>, places: Seq<int>, at: int)
    requires
        0 <= at < places.len(),
    ensures
        occurs(description(candidates[places[at]]), listing(candidates, places)),
    decreases places.len(),
{
    let part = description(candidates[places[at]]);
    if places.len() == 1 {
        texts_occur_where_they_stand(seq![], part, seq![]);
        assert(Seq::<char>::empty() + part + Seq::<char>::empty() =~= part);
    } else if at == places.len() - 1 {
        let before = listing(candidates, places.drop_last()) + ", "@;
        texts_occur_where_they_stand(before, part, seq![]);
        assert(before + part + Seq::<char>::empty() =~= listing(candidates, places));
    } else {
        let rest = places.drop_last();
        lemma_listed(candidates, rest, at);
        let inner = listing(candidates, rest);
        let from = choose|from: int|
            0 <= from <= inner.len() - part.len() && #[trigger] inner.subrange(
                from,
                from + part.len(),
            ) == part;
        let whole = listing(candidates, places);
        assert(whole.subrange(from, from + part.len()) =~= inner.subrange(from, from + part.len()));
    }
}

/// A candidate is listed by its name, then, in brackets, what selects its vendor and product,
/// and its path.
pub proof fn candidates_are_listed_by_what_selects_them(candidate: Candidate)
    ensures
        ({
            let name = match candidate.product {
                Some(name) => name,
                None => "FIDO authenticator"@,
            };
            let ids = hex_text(candidate.vendor_id) + seq![':'] + hex_text(candidate.product_id);
            &&& description(candidate) == name + seq![' ', '('] + ids + seq![',', ' ']
                + candidate.path + seq![')']
            &&& selected(ids) == Selector::VidPid(candidate.vendor_id, candidate.product_id)
        }),
{
    reveal_strlit(" (");
    reveal_strlit(":");
    reveal_strlit(", ");
    reveal_strlit(")");
    assert(" ("@ =~= seq![' ', '(']);
    assert(":"@ =~= seq![':']);
    assert(", "@ =~= seq![',', ' ']);
    assert(")"@ =~= seq![')']);
    let (vendor, product) = (hex_text(candidate.vendor_id), hex_text(candidate.product_id));
    vendors_come_before_products(candidate.vendor_id, candidate.product_id, seq![], seq![]);
    assert(Seq::<char>::empty() + vendor + seq![':'] + Seq::<char>::empty() + product =~= vendor
        + seq![':'] + product);
    assert(description(candidate) =~= name_of(candidate.product) + seq![' ', '('] + (vendor
        + seq![':'] + product) + seq![',', ' '] + candidate.path + seq![')']);
}

} // verus!
