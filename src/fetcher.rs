//! The fetcher's side of a dispatch command: reading its token list, and the
//! sticky batch that a command without tokens falls back on.
use vstd::prelude::*;

verus! {

/// Why a command is not served.
#[derive(Debug, Clone, Copy, PartialEq, Eq, Structural)]
pub enum CommandError {
    /// The body is not JSON.
    Malformed,
    /// The command carries no tokens and none were given before.
    NoTokens,
}

/// What serde_json reads from a command body: `None` where the body is not
/// JSON; else the elements of its `tokens` array, if it has one, each with
/// its text where it is a string.
pub uninterp spec fn tokens_field(body: Seq<u8>) -> Option<Option<Seq<Option<Seq<char>>>>>;

/// The text of an optional string.
pub open spec fn opt_view(o: Option<String>) -> Option<Seq<char>> {
    match o {
        Some(s) => Some(s@),
        None => None,
    }
}

/// The value of a read token field, in terms of texts.
pub open spec fn field_view(f: Option<Option<Vec<Option<String>>>>) -> Option<Option<Seq<Option<Seq<char>>>>> {
    match f {
        None => None,
        Some(None) => Some(None),
        Some(Some(v)) => Some(Some(v@.map_values(|o: Option<String>| opt_view(o)))),
    }
}

/// The texts among `xs`, in order.
pub open spec fn strings_of(xs: Seq<Option<Seq<char>>>) -> Seq<Seq<char>>
    decreases xs.len(),
{
    if xs.len() == 0 {
        Seq::empty()
    } else {
        let before = strings_of(xs.drop_last());
        match xs.last() {
            Some(t) => before.push(t),
            None => before,
        }
    }
}

/// Relies on serde_json::from_slice into a `Value`, then `Value::get`,
/// `Value::as_array` and `Value::as_str`: the body's `tokens` elements as
/// optional strings. The result depends on the bytes alone.
#[verifier::external_body]
fn read_tokens_field(body: &[u8]) -> (r: Option<Option<Vec<Option<String>>>>)
    ensures
        field_view(r) == tokens_field(body@),
{
    let v = serde_json::from_slice::<serde_json::Value>(body).ok()?;
    Some(
        v.get("tokens").and_then(|t| t.as_array()).map(
            |a| a.iter().map(|x| x.as_str().map(|s| s.to_string())).collect(),
        ),
    )
}

/// The strings among `items`, in order.
pub fn keep_strings(items: Vec<Option<String>>) -> (r: Vec<String>)
    ensures
        r@.map_values(|s: String| s@) == strings_of(items@.map_values(|o: Option<String>| opt_view(o))),
{
    let ghost xs = items@.map_values(|o: Option<String>| opt_view(o));
    let mut out: Vec<String> = Vec::new();
    let mut i: usize = 0;
    while i < items.len()
        invariant
            i <= items@.len(),
            xs == items@.map_values(|o: Option<String>| opt_view(o)),
            out@.map_values(|s: String| s@) == strings_of(xs.subrange(0, i as int)),
        decreases items@.len() - i,
    {
        proof {
            assert(xs.subrange(0, i + 1).drop_last() == xs.subrange(0, i as int));
        }
        match &items[i] {
            Some(s) => {
                out.push(s.clone());
                assert(out@.map_values(|s: String| s@) == out@.drop_last().map_values(|s: String| s@).push(
                    out@.last()@,
                ));
            },
            None => {},
        }
        i = i + 1;
    }
    assert(xs.subrange(0, items@.len() as int) == xs);
    out
}

/// The token list of a command body `{"tokens": [...], "trigger": ...}`:
/// the string elements of `tokens` in order, or `None` where the body has no
/// `tokens` array. A body that is not JSON is malformed.
pub fn command_tokens(body: &[u8]) -> (r: Result<Option<Vec<String>>, CommandError>)
    ensures
        tokens_field(body@) is None ==> r == Err::<Option<Vec<String>>, CommandError>(CommandError::Malformed),
        tokens_field(body@) == Some(None::<Seq<Option<Seq<char>>>>) ==> r == Ok::<
            Option<Vec<String>>,
            CommandError,
        >(None),
        tokens_field(body@) matches Some(Some(xs)) ==> r matches Ok(Some(v)) && v@.map_values(|s: String| s@)
            == strings_of(xs),
{
    match read_tokens_field(body) {
        None => Err(CommandError::Malformed),
        Some(None) => Ok(None),
        Some(Some(items)) => Ok(Some(keep_strings(items))),
    }
}

/// The last non-empty token list a fetcher was given.
pub struct StickyBatch {
    last: Vec<String>,
}

impl View for StickyBatch {
    type V = Seq<String>;

    closed spec fn view(&self) -> Seq<String> {
        self.last@
    }
}

impl StickyBatch {
    /// No batch yet.
    pub fn new() -> (s: StickyBatch)
        ensures
            s@ == Seq::<String>::empty(),
    {
        StickyBatch { last: Vec::new() }
    }

    /// The batch kept now.
    pub fn current(&self) -> (r: Vec<String>)
        ensures
            r@ == self@,
    {
        let mut out: Vec<String> = Vec::new();
        let mut i: usize = 0;
        while i < self.last.len()
            invariant
                i <= self@.len(),
                self@ == self.last@,
                out@ == self@.subrange(0, i as int),
            decreases self@.len() - i,
        {
            out.push(self.last[i].clone());
            i = i + 1;
            assert(self@.subrange(0, i as int) == self@.subrange(0, i - 1 as int).push(self@[i - 1]));
        }
        assert(self@.subrange(0, self@.len() as int) == self@);
        out
    }

    /// Takes a command's token list: a non-empty one replaces the kept
    /// batch; then the kept batch is the work, and with none kept the
    /// command fails. Once a batch is kept, one always is.
    pub fn accept(&mut self, tokens: Option<Vec<String>>) -> (r: Result<Vec<String>, CommandError>)
        ensures
            final(self)@ == (match tokens {
                Some(t) if t@.len() > 0 => t@,
                _ => old(self)@,
            }),
            r is Ok <==> final(self)@.len() > 0,
            r matches Ok(v) ==> v@ == final(self)@,
            r matches Err(e) ==> e == CommandError::NoTokens,
            old(self)@.len() > 0 ==> final(self)@.len() > 0,
    {
        match tokens {
            Some(t) => {
                if t.len() > 0 {
                    self.last = t;
                }
            },
            None => {},
        }
        if self.last.len() == 0 {
            return Err(CommandError::NoTokens);
        }
        Ok(self.current())
    }
}

} // verus!
