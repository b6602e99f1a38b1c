//! The table of authorisation tokens.
//!
//! A token is a code with an expiry and a number of uses left. It can be
//! used while it has uses left and has not expired. The table holds at
//! most one token per code. Every change of the table is one call on
//! `&mut TokenStore`, so a check and the decrement that follows it cannot
//! be separated by another caller.
use vstd::prelude::*;

verus! {

/// What the table records of one token, apart from its code.
pub struct TokenState {
    /// The instant, in milliseconds since the epoch, from which the token
    /// is no longer valid.
    pub expires_at: int,
    /// How many more times the token can be consumed.
    pub uses_remaining: nat,
}

/// The table as a map from code to state.
pub type TokenTable = Map<Seq<char>, TokenState>;

/// One row of the table.
#[derive(Debug)]
pub struct Token {
    /// The code that a node presents.
    pub code: String,
    /// Milliseconds since the epoch at which the token expires.
    pub expires_at: i64,
    /// Uses left.
    pub uses_remaining: u32,
}

/// Why a call on the table failed.
#[derive(Clone, Copy, Debug, PartialEq, Eq, Structural)]
pub enum TokenError {
    /// No token with that code can be used now.
    NotFound,
    /// The table already holds a token with that code.
    Duplicate,
    /// The expiry does not fit the table's clock.
    ExpiryOutOfRange,
}

/// A token can be used at `now` iff it has uses left and has not expired.
pub open spec fn usable(state: TokenState, now: int) -> bool {
    state.uses_remaining > 0 && now < state.expires_at
}

/// The table holds a token with this code that can be used at `now`.
pub open spec fn qualifies(table: TokenTable, code: Seq<char>, now: int) -> bool {
    table.contains_key(code) && usable(table[code], now)
}

/// The table after one attempt to consume `code` at `now`: unchanged if no
/// token qualifies; without the token if this was its last use; else with
/// one use less.
pub open spec fn table_after_consume(table: TokenTable, code: Seq<char>, now: int) -> TokenTable {
    if !qualifies(table, code, now) {
        table
    } else if table[code].uses_remaining == 1 {
        table.remove(code)
    } else {
        table.insert(
            code,
            TokenState {
                expires_at: table[code].expires_at,
                uses_remaining: (table[code].uses_remaining - 1) as nat,
            },
        )
    }
}

/// The table after attempts to consume `code` at each of `times`, in order.
pub open spec fn table_after_consumes(table: TokenTable, code: Seq<char>, times: Seq<int>) -> TokenTable
    decreases times.len(),
{
    if times.len() == 0 {
        table
    } else {
        table_after_consume(table_after_consumes(table, code, times.drop_last()), code, times.last())
    }
}

/// Whether attempt number `i` of a run of attempts on `code` succeeds.
pub open spec fn consume_succeeds(table: TokenTable, code: Seq<char>, times: Seq<int>, i: int) -> bool
    recommends
        0 <= i < times.len(),
{
    qualifies(table_after_consumes(table, code, times.take(i)), code, times[i])
}

/// Whether a token issued at `now` for `ttl_millis` can be recorded: the
/// code is new and the expiry fits.
pub open spec fn issue_error(table: TokenTable, code: Seq<char>, now: int, ttl_millis: int) -> Option<TokenError> {
    if now + ttl_millis < i64::MIN || now + ttl_millis > i64::MAX {
        Some(TokenError::ExpiryOutOfRange)
    } else if table.contains_key(code) {
        Some(TokenError::Duplicate)
    } else {
        None
    }
}

/// The table after an attempt to issue a token.
pub open spec fn table_after_issue(
    table: TokenTable,
    code: Seq<char>,
    uses: nat,
    now: int,
    ttl_millis: int,
) -> TokenTable {
    if issue_error(table, code, now, ttl_millis) is Some {
        table
    } else {
        table.insert(code, TokenState { expires_at: now + ttl_millis, uses_remaining: uses })
    }
}

/// No instant that the clock gives is later than this, in milliseconds
/// since the epoch: the last year of the clock's calendar ends before it.
pub const CLOCK_MAX: i64 = 9_007_199_254_740_992;

/// An instant that the clock can give: not before the epoch, and not
/// after the end of the clock's calendar.
pub open spec fn in_clock_range(now: int) -> bool {
    0 <= now <= CLOCK_MAX
}

/// What an attempt to generate a token came to, for the code that was
/// drawn and the time that the clock gave: the code is not empty, the
/// time is one that the clock can give, the table is left as an attempt
/// to issue that code at that time leaves it, and the attempt succeeded
/// with that code, or failed with the error of that attempt.
pub open spec fn generated(
    before: TokenTable,
    after: TokenTable,
    made: Result<Seq<char>, TokenError>,
    code: Seq<char>,
    uses: nat,
    now: int,
    ttl_millis: int,
) -> bool {
    &&& code.len() > 0
    &&& in_clock_range(now)
    &&& after == table_after_issue(before, code, uses, now, ttl_millis)
    &&& match made {
        Ok(returned) => returned == code && issue_error(before, code, now, ttl_millis) is None,
        Err(error) => issue_error(before, code, now, ttl_millis) == Some(error),
    }
}

/// The view of a code or an error.
pub open spec fn code_view(made: Result<String, TokenError>) -> Result<Seq<char>, TokenError> {
    match made {
        Ok(code) => Ok(code@),
        Err(error) => Err(error),
    }
}

/// Milliseconds in an hour.
pub const MILLIS_PER_HOUR: i64 = 3_600_000;

/// The length of a number of hours in milliseconds.
pub open spec fn millis_of_hours(hours: u32) -> int {
    hours * MILLIS_PER_HOUR
}

impl Token {
    /// The state that this row records.
    pub open spec fn state(self) -> TokenState {
        TokenState { expires_at: self.expires_at as int, uses_remaining: self.uses_remaining as nat }
    }

    /// Whether the token can be used at `now`.
    pub fn is_usable(&self, now: i64) -> (ok: bool)
        ensures
            ok == usable(self.state(), now as int),
    {
        self.uses_remaining > 0 && now < self.expires_at
    }

    /// A copy of this row.
    pub fn duplicate(&self) -> (copy: Token)
        ensures
            copy == *self,
    {
        Token { code: self.code.clone(), expires_at: self.expires_at, uses_remaining: self.uses_remaining }
    }
}

/// No two rows carry the same code.
pub open spec fn distinct_codes(tokens: Seq<Token>) -> bool {
    forall|i: int, j: int| 0 <= i < j < tokens.len() ==> tokens[i].code@ != tokens[j].code@
}

/// The map that a sequence of rows stands for; of two rows with one code
/// the later one counts.
pub open spec fn table_of(tokens: Seq<Token>) -> TokenTable
    decreases tokens.len(),
{
    if tokens.len() == 0 {
        Map::empty()
    } else {
        table_of(tokens.drop_last()).insert(tokens.last().code@, tokens.last().state())
    }
}

/// The codes of a table are those of its rows, and with distinct codes
/// each row's state is the one recorded under its code.
pub proof fn lemma_table_of_rows(tokens: Seq<Token>)
    ensures
        forall|code: Seq<char>|
            table_of(tokens).contains_key(code) <==> exists|i: int|
                0 <= i < tokens.len() && (#[trigger] tokens[i]).code@ == code,
        distinct_codes(tokens) ==> forall|i: int|
            0 <= i < tokens.len() ==> table_of(tokens)[(#[trigger] tokens[i]).code@] == tokens[i].state(),
        table_of(tokens).dom().finite(),
    decreases tokens.len(),
{
    if tokens.len() > 0 {
        let front = tokens.drop_last();
        lemma_table_of_rows(front);
        assert forall|code: Seq<char>|
            table_of(tokens).contains_key(code) <==> exists|i: int|
                0 <= i < tokens.len() && (#[trigger] tokens[i]).code@ == code by {
            if table_of(tokens).contains_key(code) {
                if code == tokens.last().code@ {
                    assert(tokens[tokens.len() - 1].code@ == code);
                } else {
                    let i = choose|i: int| 0 <= i < front.len() && (#[trigger] front[i]).code@ == code;
                    assert(tokens[i].code@ == code);
                }
            }
            if exists|i: int| 0 <= i < tokens.len() && (#[trigger] tokens[i]).code@ == code {
                let i = choose|i: int| 0 <= i < tokens.len() && (#[trigger] tokens[i]).code@ == code;
                if i < front.len() {
                    assert(front[i].code@ == code);
                }
            }
        }
        if distinct_codes(tokens) {
            assert(distinct_codes(front)) by {
                assert forall|i: int, j: int| 0 <= i < j < front.len() implies front[i].code@
                    != front[j].code@ by {
                    assert(tokens[i].code@ != tokens[j].code@);
                }
            }
            assert forall|i: int| 0 <= i < tokens.len() implies table_of(tokens)[(#[trigger] tokens[i]).code@]
                == tokens[i].state() by {
                if i < front.len() {
                    assert(tokens[i].code@ != tokens[tokens.len() - 1].code@);
                    assert(front[i] == tokens[i]);
                }
            }
        }
    }
}

/// The table of tokens.
pub struct TokenStore {
    tokens: Vec<Token>,
}

impl View for TokenStore {
    type V = TokenTable;

    closed spec fn view(&self) -> TokenTable {
        table_of(self.tokens@)
    }
}

/// The current time in milliseconds since the epoch, from
/// `chrono::Utc::now` and `DateTime::timestamp_millis`. The value is the
/// machine's clock; all that is claimed of it is its range. `Utc::now`
/// takes the time that has passed since the epoch, and panics on a
/// machine whose clock stands before it; and it gives a date of its
/// calendar, whose last year is 262142 and ends before [`CLOCK_MAX`].
#[verifier::external_body]
pub(crate) fn clock_millis() -> (now: i64)
    ensures
        in_clock_range(now as int),
{
    chrono::Utc::now().timestamp_millis()
}

/// The length of `hours` hours in milliseconds, from
/// `chrono::TimeDelta::hours` and `TimeDelta::num_milliseconds`: an hour
/// is 3600 seconds of 1000 milliseconds. Every `u32` number of hours is
/// within the bounds of a `TimeDelta`.
#[verifier::external_body]
fn hours_as_millis(hours: u32) -> (millis: i64)
    ensures
        millis == millis_of_hours(hours),
{
    chrono::TimeDelta::hours(i64::from(hours)).num_milliseconds()
}

/// A new random code, from `cuid2::create_id`. The code is drawn at
/// random; all that is claimed of it is that it is not empty: `create_id`
/// always puts a letter first. On a machine whose clock stands before
/// the epoch `create_id` panics.
#[verifier::external_body]
fn fresh_code() -> (code: String)
    ensures
        code@.len() > 0,
{
    cuid2::create_id()
}

impl TokenStore {
    #[verifier::type_invariant]
    spec fn inv(self) -> bool {
        distinct_codes(self.tokens@)
    }

    /// An empty table.
    pub fn new() -> (store: TokenStore)
        ensures
            store@ == TokenTable::empty(),
    {
        TokenStore { tokens: Vec::new() }
    }

    /// The table that a list of rows stands for, as it is read from
    /// durable storage: `Duplicate` if two rows carry one code.
    pub fn restore(rows: Vec<Token>) -> (made: Result<TokenStore, TokenError>)
        ensures
            made is Ok == distinct_codes(rows@),
            made matches Ok(store) ==> store@ == table_of(rows@),
            made matches Err(error) ==> error == TokenError::Duplicate,
    {
        let mut j: usize = 0;
        while j < rows.len()
            invariant
                j <= rows@.len(),
                forall|a: int, b: int| 0 <= a < b < j ==> rows@[a].code@ != rows@[b].code@,
            decreases rows@.len() - j,
        {
            let mut i: usize = 0;
            while i < j
                invariant
                    i <= j < rows@.len(),
                    forall|a: int| 0 <= a < i ==> rows@[a].code@ != rows@[j as int].code@,
                decreases j - i,
            {
                if rows[i].code == rows[j].code {
                    return Err(TokenError::Duplicate);
                }
                i += 1;
            }
            j += 1;
        }
        Ok(TokenStore { tokens: rows })
    }

    /// The number of tokens in the table.
    pub fn len(&self) -> (n: usize)
        ensures
            n == self@.len(),
    {
        proof {
            use_type_invariant(self);
            lemma_len_of_table(self.tokens@);
        }
        self.tokens.len()
    }

    /// The rows of the table, for keeping them in durable storage.
    pub fn rows(&self) -> (rows: Vec<Token>)
        ensures
            distinct_codes(rows@),
            table_of(rows@) == self@,
    {
        proof {
            use_type_invariant(self);
        }
        let mut rows: Vec<Token> = Vec::new();
        let mut i: usize = 0;
        while i < self.tokens.len()
            invariant
                i <= self.tokens@.len(),
                rows@ == self.tokens@.take(i as int),
            decreases self.tokens@.len() - i,
        {
            rows.push(self.tokens[i].duplicate());
            assert(self.tokens@.take(i + 1) == self.tokens@.take(i as int).push(self.tokens@[i as int]));
            i += 1;
        }
        assert(self.tokens@.take(i as int) == self.tokens@);
        rows
    }

    /// The index of the row with this code.
    fn position(tokens: &Vec<Token>, code: &String) -> (found: Option<usize>)
        ensures
            match found {
                Some(i) => i < tokens@.len() && tokens@[i as int].code@ == code@,
                None => forall|i: int| 0 <= i < tokens@.len() ==> tokens@[i].code@ != code@,
            },
    {
        let mut i: usize = 0;
        while i < tokens.len()
            invariant
                i <= tokens@.len(),
                forall|k: int| 0 <= k < i ==> tokens@[k].code@ != code@,
            decreases tokens@.len() - i,
        {
            if tokens[i].code == *code {
                return Some(i);
            }
            i += 1;
        }
        None
    }

    /// Records a token with `uses` uses that expires `ttl_millis` after
    /// `now`, unless the expiry does not fit or the code is taken.
    pub fn issue(&mut self, code: String, uses: u32, now: i64, ttl_millis: i64) -> (done: Result<
        (),
        TokenError,
    >)
        ensures
            done == match issue_error(old(self)@, code@, now as int, ttl_millis as int) {
                Some(error) => Err::<(), TokenError>(error),
                None => Ok(()),
            },
            final(self)@ == table_after_issue(
                old(self)@,
                code@,
                uses as nat,
                now as int,
                ttl_millis as int,
            ),
    {
        proof {
            use_type_invariant(&*self);
            lemma_table_of_rows(self.tokens@);
        }
        let expires_at = match now.checked_add(ttl_millis) {
            Some(at) => at,
            None => {
                return Err(TokenError::ExpiryOutOfRange);
            },
        };
        if TokenStore::position(&self.tokens, &code).is_some() {
            return Err(TokenError::Duplicate);
        }
        let mut tokens: Vec<Token> = Vec::new();
        std::mem::swap(&mut tokens, &mut self.tokens);
        let ghost before = tokens@;
        tokens.push(Token { code, expires_at, uses_remaining: uses });
        proof {
            assert(tokens@.drop_last() == before);
        }
        self.tokens = tokens;
        Ok(())
    }

    /// Creates a token with a new random code, `uses` uses and a life of
    /// `ttl_hours` hours from now, and returns its code.
    ///
    /// The code and the time come from outside. Whatever they are, the
    /// call fares as [`TokenStore::issue`] does with them. The expiry
    /// always fits, so the call fails only if the code that was drawn is
    /// in the table already, and then changes nothing; else the token is
    /// recorded under the code that is returned. The code is not empty.
    /// On a table without tokens the call succeeds.
    pub fn generate(&mut self, uses: u32, ttl_hours: u32) -> (made: Result<String, TokenError>)
        ensures
            exists|code: Seq<char>, now: int|
                generated(
                    old(self)@,
                    final(self)@,
                    code_view(made),
                    code,
                    uses as nat,
                    now,
                    millis_of_hours(ttl_hours),
                ),
            made matches Ok(code) ==> code@.len() > 0 && !old(self)@.contains_key(code@),
            made matches Err(error) ==> error == TokenError::Duplicate,
            old(self)@ == TokenTable::empty() ==> made is Ok,
    {
        let code = fresh_code();
        let now = clock_millis();
        let ttl_millis = hours_as_millis(ttl_hours);
        let returned = code.clone();
        let made = match self.issue(code, uses, now, ttl_millis) {
            Ok(()) => Ok(returned),
            Err(error) => Err(error),
        };
        assert(generated(
            old(self)@,
            self@,
            code_view(made),
            returned@,
            uses as nat,
            now as int,
            millis_of_hours(ttl_hours),
        ));
        made
    }

    /// Whether a token with this code can be used at `now`. The table is
    /// not changed.
    pub fn validate_at(&self, code: &str, now: i64) -> (ok: bool)
        ensures
            ok == qualifies(self@, code@, now as int),
    {
        proof {
            use_type_invariant(self);
            lemma_table_of_rows(self.tokens@);
        }
        let wanted = code.to_owned();
        match TokenStore::position(&self.tokens, &wanted) {
            Some(i) => self.tokens[i].is_usable(now),
            None => false,
        }
    }

    /// Whether a token with this code can be used now.
    pub fn validate(&self, code: &str) -> (ok: bool)
        ensures
            exists|now: int| in_clock_range(now) && ok == #[trigger] qualifies(self@, code@, now),
    {
        let now = clock_millis();
        let ok = self.validate_at(code, now);
        assert(ok == qualifies(self@, code@, now as int));
        ok
    }

    /// Consumes one use of the token with this code at `now`: check and
    /// decrement in one step. A token that reaches zero uses leaves the
    /// table. Fails with `NotFound`, and changes nothing, if no token
    /// with this code can be used at `now`.
    pub fn consume_at(&mut self, code: &str, now: i64) -> (done: Result<(), TokenError>)
        ensures
            done == if qualifies(old(self)@, code@, now as int) {
                Ok::<(), TokenError>(())
            } else {
                Err(TokenError::NotFound)
            },
            final(self)@ == table_after_consume(old(self)@, code@, now as int),
    {
        proof {
            use_type_invariant(&*self);
            lemma_table_of_rows(self.tokens@);
        }
        let wanted = code.to_owned();
        let i = match TokenStore::position(&self.tokens, &wanted) {
            Some(i) => i,
            None => {
                return Err(TokenError::NotFound);
            },
        };
        if !self.tokens[i].is_usable(now) {
            return Err(TokenError::NotFound);
        }
        let mut tokens: Vec<Token> = Vec::new();
        std::mem::swap(&mut tokens, &mut self.tokens);
        let ghost before = tokens@;
        let uses = tokens[i].uses_remaining;
        if uses == 1 {
            tokens.remove(i);
            proof {
                lemma_table_without_row(before, i as int);
            }
        } else {
            let expires_at = tokens[i].expires_at;
            tokens.set(i, Token { code: wanted, expires_at, uses_remaining: uses - 1 });
            proof {
                lemma_table_with_row_updated(before, i as int, tokens@[i as int]);
            }
        }
        self.tokens = tokens;
        Ok(())
    }

    /// Consumes one use of the token with this code now.
    ///
    /// The time comes from outside: whatever it is, the call succeeds iff
    /// the token can be used then, and the table changes as
    /// [`TokenStore::consume_at`] says.
    pub fn consume(&mut self, code: &str) -> (done: Result<(), TokenError>)
        ensures
            exists|now: int|
                {
                    &&& in_clock_range(now)
                    &&& done is Ok <==> #[trigger] qualifies(old(self)@, code@, now)
                    &&& final(self)@ == table_after_consume(old(self)@, code@, now)
                },
            done is Err ==> done == Err::<(), TokenError>(TokenError::NotFound),
    {
        let now = clock_millis();
        let done = self.consume_at(code, now);
        assert(done is Ok <==> qualifies(old(self)@, code@, now as int));
        done
    }

    /// Removes every token.
    pub fn revoke_all(&mut self)
        ensures
            final(self)@ == TokenTable::empty(),
    {
        self.tokens = Vec::new();
    }
}

/// With distinct codes a table has as many entries as rows.
pub proof fn lemma_len_of_table(tokens: Seq<Token>)
    requires
        distinct_codes(tokens),
    ensures
        table_of(tokens).len() == tokens.len(),
        table_of(tokens).dom().finite(),
    decreases tokens.len(),
{
    lemma_table_of_rows(tokens);
    if tokens.len() > 0 {
        let front = tokens.drop_last();
        assert(distinct_codes(front)) by {
            assert forall|i: int, j: int| 0 <= i < j < front.len() implies front[i].code@
                != front[j].code@ by {
                assert(tokens[i].code@ != tokens[j].code@);
            }
        }
        lemma_len_of_table(front);
        lemma_table_of_rows(front);
        assert(!table_of(front).contains_key(tokens.last().code@)) by {
            if table_of(front).contains_key(tokens.last().code@) {
                let i = choose|i: int| 0 <= i < front.len() && (#[trigger] front[i]).code@ == tokens.last().code@;
                assert(tokens[i].code@ != tokens[tokens.len() - 1].code@);
            }
        }
    }
}

/// Removing a row removes its code from the table, and keeps the codes
/// distinct.
proof fn lemma_table_without_row(tokens: Seq<Token>, i: int)
    requires
        distinct_codes(tokens),
        0 <= i < tokens.len(),
    ensures
        distinct_codes(tokens.remove(i)),
        table_of(tokens.remove(i)) == table_of(tokens).remove(tokens[i].code@),
{
    let rest = tokens.remove(i);
    assert(distinct_codes(rest)) by {
        assert forall|a: int, b: int| 0 <= a < b < rest.len() implies rest[a].code@ != rest[b].code@ by {
            let a0 = if a < i { a } else { a + 1 };
            let b0 = if b < i { b } else { b + 1 };
            assert(tokens[a0].code@ != tokens[b0].code@);
        }
    }
    lemma_table_of_rows(tokens);
    lemma_table_of_rows(rest);
    let left = table_of(rest);
    let right = table_of(tokens).remove(tokens[i].code@);
    assert forall|code: Seq<char>| left.contains_key(code) <==> right.contains_key(code) by {
        if left.contains_key(code) {
            let k = choose|k: int| 0 <= k < rest.len() && (#[trigger] rest[k]).code@ == code;
            let k0 = if k < i { k } else { k + 1 };
            assert(tokens[k0].code@ == code);
            assert(k0 != i);
            if k0 < i {
                assert(tokens[k0].code@ != tokens[i].code@);
            } else {
                assert(tokens[i].code@ != tokens[k0].code@);
            }
        }
        if right.contains_key(code) {
            let k = choose|k: int| 0 <= k < tokens.len() && (#[trigger] tokens[k]).code@ == code;
            assert(k != i);
            let k1 = if k < i { k } else { k - 1 };
            assert(rest[k1].code@ == code);
        }
    }
    assert forall|code: Seq<char>| left.contains_key(code) implies left[code] == right[code] by {
        let k = choose|k: int| 0 <= k < rest.len() && (#[trigger] rest[k]).code@ == code;
        let k0 = if k < i { k } else { k + 1 };
        assert(rest[k] == tokens[k0]);
        assert(left[rest[k].code@] == rest[k].state());
        assert(table_of(tokens)[tokens[k0].code@] == tokens[k0].state());
    }
    assert(left =~= right);
}

/// Replacing a row by one with the same code replaces its state in the
/// table, and keeps the codes distinct.
proof fn lemma_table_with_row_updated(tokens: Seq<Token>, i: int, row: Token)
    requires
        distinct_codes(tokens),
        0 <= i < tokens.len(),
        row.code@ == tokens[i].code@,
    ensures
        distinct_codes(tokens.update(i, row)),
        table_of(tokens.update(i, row)) == table_of(tokens).insert(row.code@, row.state()),
{
    let next = tokens.update(i, row);
    assert(distinct_codes(next)) by {
        assert forall|a: int, b: int| 0 <= a < b < next.len() implies next[a].code@ != next[b].code@ by {
            assert(tokens[a].code@ != tokens[b].code@);
        }
    }
    lemma_table_of_rows(tokens);
    lemma_table_of_rows(next);
    let left = table_of(next);
    let right = table_of(tokens).insert(row.code@, row.state());
    assert forall|code: Seq<char>| left.contains_key(code) <==> right.contains_key(code) by {
        if left.contains_key(code) {
            let k = choose|k: int| 0 <= k < next.len() && (#[trigger] next[k]).code@ == code;
            assert(tokens[k].code@ == code);
        }
        if right.contains_key(code) {
            if code == row.code@ {
                assert(next[i].code@ == code);
            } else {
                let k = choose|k: int| 0 <= k < tokens.len() && (#[trigger] tokens[k]).code@ == code;
                assert(next[k].code@ == code);
            }
        }
    }
    assert forall|code: Seq<char>| left.contains_key(code) implies left[code] == right[code] by {
        let k = choose|k: int| 0 <= k < next.len() && (#[trigger] next[k]).code@ == code;
        assert(left[next[k].code@] == next[k].state());
        if k != i {
            assert(next[k] == tokens[k]);
            assert(table_of(tokens)[tokens[k].code@] == tokens[k].state());
            if k < i {
                assert(tokens[k].code@ != tokens[i].code@);
            } else {
                assert(tokens[i].code@ != tokens[k].code@);
            }
        }
    }
    assert(left =~= right);
}

/// What is left of a token after a run of attempts made before its
/// expiry: one use less per attempt, until the token leaves the table.
proof fn lemma_table_after_consumes(table: TokenTable, code: Seq<char>, times: Seq<int>)
    requires
        table.contains_key(code),
        forall|k: int| 0 <= k < times.len() ==> times[k] < table[code].expires_at,
    ensures
        ({
            let after = table_after_consumes(table, code, times);
            let uses = table[code].uses_remaining;
            if times.len() < uses {
                &&& after.contains_key(code)
                &&& after[code].expires_at == table[code].expires_at
                &&& after[code].uses_remaining == uses - times.len()
            } else if uses == 0 {
                after == table
            } else {
                !after.contains_key(code)
            }
        }),
    decreases times.len(),
{
    if times.len() > 0 {
        let front = times.drop_last();
        assert forall|k: int| 0 <= k < front.len() implies front[k] < table[code].expires_at by {
            assert(front[k] == times[k]);
        }
        lemma_table_after_consumes(table, code, front);
        assert(times.last() == times[times.len() - 1]);
    }
}

/// Of a run of attempts on one code, each made before the token's expiry,
/// attempt number `i` succeeds iff fewer than the token's uses came before
/// it.
pub proof fn lemma_uses_are_counted(table: TokenTable, code: Seq<char>, times: Seq<int>, i: int)
    requires
        table.contains_key(code),
        0 <= i < times.len(),
        forall|k: int| 0 <= k < times.len() ==> times[k] < table[code].expires_at,
    ensures
        consume_succeeds(table, code, times, i) <==> i < table[code].uses_remaining,
{
    let earlier = times.take(i);
    assert forall|k: int| 0 <= k < earlier.len() implies earlier[k] < table[code].expires_at by {
        assert(earlier[k] == times[k]);
    }
    lemma_table_after_consumes(table, code, earlier);
}

/// A token issued with `uses` uses is consumed by exactly `uses` attempts
/// in a row made before its expiry: each of these succeeds, the next one
/// finds no token, and the table is then as it was before the token was
/// issued.
pub proof fn lemma_issued_token_lasts_its_uses(
    before: TokenTable,
    code: Seq<char>,
    uses: nat,
    now: int,
    ttl_millis: int,
    times: Seq<int>,
)
    requires
        issue_error(before, code, now, ttl_millis) is None,
        times.len() == uses + 1,
        forall|k: int| 0 <= k < times.len() ==> times[k] < now + ttl_millis,
    ensures
        forall|i: int|
            0 <= i < uses ==> consume_succeeds(
                table_after_issue(before, code, uses, now, ttl_millis),
                code,
                times,
                i,
            ),
        !consume_succeeds(table_after_issue(before, code, uses, now, ttl_millis), code, times, uses as int),
        uses > 0 ==> table_after_consumes(
            table_after_issue(before, code, uses, now, ttl_millis),
            code,
            times,
        ) == before,
{
    let table = table_after_issue(before, code, uses, now, ttl_millis);
    assert forall|i: int| 0 <= i < times.len() implies (consume_succeeds(table, code, times, i) <==> i
        < uses) by {
        lemma_uses_are_counted(table, code, times, i);
    }
    if uses > 0 {
        let spent = times.take(uses as int);
        assert forall|k: int| 0 <= k < spent.len() implies spent[k] < table[code].expires_at by {
            assert(spent[k] == times[k]);
        }
        lemma_table_after_consumes(table, code, spent);
        lemma_table_after_consumes(table, code, times);
        lemma_consumes_touch_one_code(table, code, times);
        let after = table_after_consumes(table, code, times);
        assert forall|other: Seq<char>| after.contains_key(other) == before.contains_key(other) by {
            if other != code {
                assert(after.contains_key(other) == table.contains_key(other));
            }
        }
        assert forall|other: Seq<char>| after.contains_key(other) implies after[other] == before[other] by {
            assert(after.contains_key(other) == table.contains_key(other));
        }
        assert(after =~= before);
    }
}

/// Attempts on one code leave every other code as it was.
pub proof fn lemma_consumes_touch_one_code(table: TokenTable, code: Seq<char>, times: Seq<int>)
    ensures
        forall|other: Seq<char>|
            other != code ==> {
                &&& #[trigger] table_after_consumes(table, code, times).contains_key(other)
                    == table.contains_key(other)
                &&& table.contains_key(other) ==> table_after_consumes(table, code, times)[other]
                    == table[other]
            },
    decreases times.len(),
{
    if times.len() > 0 {
        let front = table_after_consumes(table, code, times.drop_last());
        lemma_consumes_touch_one_code(table, code, times.drop_last());
        assert forall|other: Seq<char>| other != code implies {
            &&& #[trigger] table_after_consumes(table, code, times).contains_key(other)
                == table.contains_key(other)
            &&& table.contains_key(other) ==> table_after_consumes(table, code, times)[other]
                == table[other]
        } by {
            assert(front.contains_key(other) == table.contains_key(other));
        }
    }
}

/// A token whose expiry is not after `now` is refused at `now`, whatever
/// uses it has left, and an attempt to consume it changes nothing.
pub proof fn lemma_expired_token_is_refused(table: TokenTable, code: Seq<char>, now: int)
    requires
        table.contains_key(code) ==> table[code].expires_at <= now,
    ensures
        !qualifies(table, code, now),
        table_after_consume(table, code, now) == table,
{
}

/// Of any number of attempts on a token with one use left, in whatever
/// order the callers are served, the first succeeds and every other one
/// finds no token.
pub proof fn lemma_single_use_is_spent_once(table: TokenTable, code: Seq<char>, times: Seq<int>)
    requires
        table.contains_key(code),
        table[code].uses_remaining == 1,
        forall|k: int| 0 <= k < times.len() ==> times[k] < table[code].expires_at,
    ensures
        forall|i: int| 0 <= i < times.len() ==> (consume_succeeds(table, code, times, i) <==> i == 0),
{
    assert forall|i: int| 0 <= i < times.len() implies (consume_succeeds(table, code, times, i) <==> i
        == 0) by {
        lemma_uses_are_counted(table, code, times, i);
    }
}

} // verus!
