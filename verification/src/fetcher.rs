//! Scripted console exchanges.
//!
//! A [`Fetcher`] is one scripted multi-step exchange with the switch: an
//! ordered list of [`Step`]s, each a pair of bytes to send and the prompt to
//! await afterwards, plus the filename the captured output is persisted
//! under.  The named constructors encode the handful of dialog shapes the
//! switch is known to use; [`Exchange`] tracks the replay of one fetcher's
//! steps over a session, accumulating the output of the completed steps.

use vstd::prelude::*;
use vstd::string::{StrSliceExecFns, StringSliceAdditionalSpecFns};

use crate::session::LF;
use crate::text::{bytes_eq, push_all, upper, upper_bytes};

verus! {

// --- The console's vocabulary, as byte sequences. ---

/// The reset marker `****` that returns the console to a known prompt.
pub open spec fn stars() -> Seq<u8> {
    seq![42u8, 42u8, 42u8, 42u8]
}

/// The header marker `"  # "`: two spaces, a hash, a space.  The console
/// prints it at the start of meaningful command output, and it doubles as
/// the prompt that follows a completed command.
pub open spec fn hash_marker_bytes() -> Seq<u8> {
    seq![32u8, 32u8, 35u8, 32u8]
}

/// The word `REQ`.
pub open spec fn req_bytes() -> Seq<u8> {
    seq![82u8, 69u8, 81u8]
}

/// The word `TYP`.
pub open spec fn typ_bytes() -> Seq<u8> {
    seq![84u8, 89u8, 80u8]
}

/// The word `CLI`.
pub open spec fn cli_bytes() -> Seq<u8> {
    seq![67u8, 76u8, 73u8]
}

/// The command word `que`.
pub open spec fn que_bytes() -> Seq<u8> {
    seq![113u8, 117u8, 101u8]
}

/// The command word `quei`, the request for inactive translations.
pub open spec fn quei_bytes() -> Seq<u8> {
    seq![113u8, 117u8, 101u8, 105u8]
}

/// The answer `cli` to the type query of the CLI overlay.
pub open spec fn cli_answer_bytes() -> Seq<u8> {
    seq![99u8, 108u8, 105u8]
}

/// The selection answer `all`.
pub open spec fn all_bytes() -> Seq<u8> {
    seq![97u8, 108u8, 108u8]
}

/// The command prefix `"ovly "` that selects an overlay.
pub open spec fn ovly_prefix() -> Seq<u8> {
    seq![111u8, 118u8, 108u8, 121u8, 32u8]
}

/// The overlay name `trns`.
pub open spec fn trns_bytes() -> Seq<u8> {
    seq![116u8, 114u8, 110u8, 115u8]
}

/// The filename prefix `"TRNS/active/"`.
pub open spec fn trns_active_prefix() -> Seq<u8> {
    seq![84u8, 82u8, 78u8, 83u8, 47u8, 97u8, 99u8, 116u8, 105u8, 118u8, 101u8, 47u8]
}

/// The filename prefix `"TRNS/inactive/"`.
pub open spec fn trns_inactive_prefix() -> Seq<u8> {
    seq![
        84u8,
        82u8,
        78u8,
        83u8,
        47u8,
        105u8,
        110u8,
        97u8,
        99u8,
        116u8,
        105u8,
        118u8,
        101u8,
        47u8,
    ]
}

/// The filename suffix `".txt"`.
pub open spec fn txt_suffix() -> Seq<u8> {
    seq![46u8, 116u8, 120u8, 116u8]
}

/// `n` spaces.
pub open spec fn spaces(n: nat) -> Seq<u8> {
    Seq::new(n, |i: int| 32u8)
}

/// A command as typed at the console: the bytes followed by a line feed.
pub open spec fn spec_line(cmd: Seq<u8>) -> Seq<u8> {
    cmd + seq![LF]
}

/// The overlay-selection command `"ovly {name}\n"`.
pub open spec fn spec_ovly_line(name: Seq<u8>) -> Seq<u8> {
    spec_line(ovly_prefix() + name)
}

/// The console's standard prompt padding: four spaces, the word padded with
/// trailing spaces to at least four bytes, then two more spaces.
pub open spec fn spec_dmo_prompt(word: Seq<u8>) -> Seq<u8> {
    spaces(4) + (if word.len() >= 4 {
        word
    } else {
        word + spaces((4 - word.len()) as nat)
    }) + spaces(2)
}

/// The wider type-query prompt `"    TYP    "` some newer overlays print.
pub open spec fn wide_typ_prompt() -> Seq<u8> {
    spaces(4) + typ_bytes() + spaces(4)
}

/// The derived output path `UPPER(ovly) + "/" + UPPER(typ) + ".txt"`.
pub open spec fn spec_filename(ovly: Seq<u8>, typ: Seq<u8>) -> Seq<u8> {
    upper(ovly) + seq![47u8] + upper(typ) + txt_suffix()
}

/// The filename depends only on the letters of its inputs, not their case:
/// inputs that agree up to ASCII case derive the same filename.
pub proof fn lemma_filename_case_insensitive(o1: Seq<u8>, t1: Seq<u8>, o2: Seq<u8>, t2: Seq<u8>)
    requires
        upper(o1) == upper(o2),
        upper(t1) == upper(t2),
    ensures
        spec_filename(o1, t1) == spec_filename(o2, t2),
{
}

// --- The five-step standard exchange and its variants. ---

/// The standard exchange: reset, select the overlay, ask for a query, answer
/// the type, answer the selection prompt with `all`.  `typ_prompt` is the
/// prompt awaited after `que`, and `sel_prompt` the one awaited after the
/// type answer.
pub open spec fn spec_standard_steps(
    ovly: Seq<u8>,
    typ: Seq<u8>,
    typ_prompt: Seq<u8>,
    sel_prompt: Seq<u8>,
) -> Seq<(Seq<u8>, Seq<u8>)> {
    seq![
        (spec_line(stars()), hash_marker_bytes()),
        (spec_ovly_line(ovly), spec_dmo_prompt(req_bytes())),
        (spec_line(que_bytes()), typ_prompt),
        (spec_line(typ), sel_prompt),
        (spec_line(all_bytes()), spec_dmo_prompt(req_bytes())),
    ]
}

/// The shortened exchange for types that emit data with no selection step.
pub open spec fn spec_no_prompt_steps(ovly: Seq<u8>, typ: Seq<u8>) -> Seq<(Seq<u8>, Seq<u8>)> {
    seq![
        (spec_line(stars()), hash_marker_bytes()),
        (spec_ovly_line(ovly), spec_dmo_prompt(req_bytes())),
        (spec_line(que_bytes()), spec_dmo_prompt(typ_bytes())),
        (spec_line(typ), spec_dmo_prompt(req_bytes())),
    ]
}

/// The CLI overlay's exchange, with the nested `cli` selection step.
pub open spec fn spec_cli_steps(ovly: Seq<u8>, cli: Seq<u8>, sel_prompt: Seq<u8>) -> Seq<
    (Seq<u8>, Seq<u8>),
> {
    seq![
        (spec_line(stars()), hash_marker_bytes()),
        (spec_ovly_line(ovly), spec_dmo_prompt(req_bytes())),
        (spec_line(que_bytes()), spec_dmo_prompt(typ_bytes())),
        (spec_line(cli_answer_bytes()), spec_dmo_prompt(cli_bytes())),
        (spec_line(cli), sel_prompt),
        (spec_line(all_bytes()), spec_dmo_prompt(req_bytes())),
    ]
}

/// The translations exchange: always the `trns` overlay, with `request`
/// either `que` (active) or `quei` (inactive), and the selection prompt
/// derived from the upper-cased type.
pub open spec fn spec_trns_steps(typ: Seq<u8>, request: Seq<u8>) -> Seq<(Seq<u8>, Seq<u8>)> {
    seq![
        (spec_line(stars()), hash_marker_bytes()),
        (spec_ovly_line(trns_bytes()), spec_dmo_prompt(req_bytes())),
        (spec_line(request), spec_dmo_prompt(typ_bytes())),
        (spec_line(typ), spec_dmo_prompt(upper(typ))),
        (spec_line(all_bytes()), spec_dmo_prompt(req_bytes())),
    ]
}

// --- Executable constructors for the vocabulary. ---

/// The header marker `"  # "` as a byte vector.
pub fn hash_marker() -> (v: Vec<u8>)
    ensures
        v@ == hash_marker_bytes(),
{
    let v: Vec<u8> = vec![32, 32, 35, 32];
    assert(v@ =~= hash_marker_bytes());
    v
}

/// `cmd` followed by a line feed.
fn line_of(cmd: &[u8]) -> (v: Vec<u8>)
    ensures
        v@ == spec_line(cmd@),
{
    let mut v: Vec<u8> = Vec::new();
    push_all(&mut v, cmd);
    v.push(LF);
    assert(v@ =~= spec_line(cmd@));
    v
}

/// The reset command `"****\n"`.
fn stars_line() -> (v: Vec<u8>)
    ensures
        v@ == spec_line(stars()),
{
    let v: Vec<u8> = vec![42, 42, 42, 42, 10];
    assert(v@ =~= spec_line(stars()));
    v
}

/// The overlay-selection command `"ovly {name}\n"`.
fn ovly_line(name: &[u8]) -> (v: Vec<u8>)
    ensures
        v@ == spec_ovly_line(name@),
{
    let mut v: Vec<u8> = vec![111, 118, 108, 121, 32];
    assert(v@ =~= ovly_prefix());
    push_all(&mut v, name);
    v.push(LF);
    assert(v@ =~= spec_ovly_line(name@));
    v
}

/// The standard prompt padding applied to `word`.
fn dmo_prompt_bytes(word: &[u8]) -> (v: Vec<u8>)
    ensures
        v@ == spec_dmo_prompt(word@),
{
    let mut v: Vec<u8> = vec![32, 32, 32, 32];
    assert(v@ =~= spaces(4));
    push_all(&mut v, word);
    let mut n: usize = word.len();
    while n < 4
        invariant
            word@.len() <= n,
            word@.len() < 4 ==> n <= 4,
            word@.len() >= 4 ==> n == word@.len(),
            v@ == spaces(4) + word@ + spaces((n - word@.len()) as nat),
        decreases 4 - n,
    {
        v.push(32);
        n = n + 1;
        assert(v@ =~= spaces(4) + word@ + spaces((n - word@.len()) as nat));
    }
    v.push(32);
    v.push(32);
    if word.len() >= 4 {
        assert(word@ + spaces(0) =~= word@);
        assert(v@ =~= spec_dmo_prompt(word@));
    } else {
        assert(v@ =~= spec_dmo_prompt(word@));
    }
    v
}

/// The standard prompt padding, for a prompt word given as text.
///
/// `dmo_prompt("REQ")` is `"    REQ   "`: four leading spaces, the word
/// padded to four bytes, two trailing spaces.
pub fn dmo_prompt(word: &str) -> (v: Vec<u8>)
    ensures
        v@ == spec_dmo_prompt(word.spec_bytes()),
{
    dmo_prompt_bytes(word.as_bytes())
}

/// The prompt `"    REQ   "` that follows a completed command.
pub fn req_prompt() -> (v: Vec<u8>)
    ensures
        v@ == spec_dmo_prompt(req_bytes()),
{
    let w: Vec<u8> = vec![82, 69, 81];
    assert(w@ =~= req_bytes());
    dmo_prompt_bytes(w.as_slice())
}

/// The type-query prompt `"    TYP   "`.
fn typ_prompt() -> (v: Vec<u8>)
    ensures
        v@ == spec_dmo_prompt(typ_bytes()),
{
    let w: Vec<u8> = vec![84, 89, 80];
    assert(w@ =~= typ_bytes());
    dmo_prompt_bytes(w.as_slice())
}

/// The nested-selection prompt `"    CLI   "`.
fn cli_prompt() -> (v: Vec<u8>)
    ensures
        v@ == spec_dmo_prompt(cli_bytes()),
{
    let w: Vec<u8> = vec![67, 76, 73];
    assert(w@ =~= cli_bytes());
    dmo_prompt_bytes(w.as_slice())
}

/// The wide type-query prompt `"    TYP    "`.
fn wide_typ_prompt_vec() -> (v: Vec<u8>)
    ensures
        v@ == wide_typ_prompt(),
{
    let v: Vec<u8> = vec![32, 32, 32, 32, 84, 89, 80, 32, 32, 32, 32];
    assert(v@ =~= wide_typ_prompt());
    v
}

/// The derived output path for an overlay and type, upper-cased and joined
/// as `NAMESPACE/TYPE.txt`.
pub fn derive_filename(ovly: &str, typ: &str) -> (v: Vec<u8>)
    ensures
        v@ == spec_filename(ovly.spec_bytes(), typ.spec_bytes()),
{
    let mut v = upper_bytes(ovly.as_bytes());
    v.push(47);
    let t = upper_bytes(typ.as_bytes());
    push_all(&mut v, t.as_slice());
    let suffix: Vec<u8> = vec![46, 116, 120, 116];
    assert(suffix@ =~= txt_suffix());
    push_all(&mut v, suffix.as_slice());
    assert(v@ =~= spec_filename(ovly.spec_bytes(), typ.spec_bytes()));
    v
}

// --- Steps, fetchers, and their constructors. ---

/// One interaction step: the bytes to send, then the prompt to await.
pub struct Step {
    send: Vec<u8>,
    expect: Vec<u8>,
}

impl View for Step {
    type V = (Seq<u8>, Seq<u8>);

    closed spec fn view(&self) -> (Seq<u8>, Seq<u8>) {
        (self.send@, self.expect@)
    }
}

impl Step {
    /// The bytes this step sends.
    pub fn send_bytes(&self) -> (r: &Vec<u8>)
        ensures
            r@ == self@.0,
    {
        &self.send
    }

    /// The prompt this step awaits.
    pub fn expect_bytes(&self) -> (r: &Vec<u8>)
        ensures
            r@ == self@.1,
    {
        &self.expect
    }
}

/// The command word `que` as a byte vector.
fn que_vec() -> (v: Vec<u8>)
    ensures
        v@ == que_bytes(),
{
    let v: Vec<u8> = vec![113, 117, 101];
    assert(v@ =~= que_bytes());
    v
}

/// The selection answer `all` as a byte vector.
fn all_vec() -> (v: Vec<u8>)
    ensures
        v@ == all_bytes(),
{
    let v: Vec<u8> = vec![97, 108, 108];
    assert(v@ =~= all_bytes());
    v
}

/// The steps of the standard five-step exchange.
fn standard_interactions(ovly: &[u8], typ: &[u8], typ_prompt: Vec<u8>, sel_prompt: Vec<u8>) -> (v:
    Vec<Step>)
    ensures
        v@.map_values(|s: Step| s@) == spec_standard_steps(ovly@, typ@, typ_prompt@, sel_prompt@),
{
    let mut v: Vec<Step> = Vec::new();
    v.push(Step { send: stars_line(), expect: hash_marker() });
    v.push(Step { send: ovly_line(ovly), expect: req_prompt() });
    v.push(Step { send: line_of(que_vec().as_slice()), expect: typ_prompt });
    v.push(Step { send: line_of(typ), expect: sel_prompt });
    v.push(Step { send: line_of(all_vec().as_slice()), expect: req_prompt() });
    assert(v@.map_values(|s: Step| s@) =~= spec_standard_steps(
        ovly@,
        typ@,
        typ_prompt@,
        sel_prompt@,
    ));
    v
}

/// The steps of the shortened no-selection exchange.
fn no_prompt_interactions(ovly: &[u8], typ: &[u8]) -> (v: Vec<Step>)
    ensures
        v@.map_values(|s: Step| s@) == spec_no_prompt_steps(ovly@, typ@),
{
    let mut v: Vec<Step> = Vec::new();
    v.push(Step { send: stars_line(), expect: hash_marker() });
    v.push(Step { send: ovly_line(ovly), expect: req_prompt() });
    v.push(Step { send: line_of(que_vec().as_slice()), expect: typ_prompt() });
    v.push(Step { send: line_of(typ), expect: req_prompt() });
    assert(v@.map_values(|s: Step| s@) =~= spec_no_prompt_steps(ovly@, typ@));
    v
}

/// The steps of the translations exchange.
fn trns_interactions(typ: &[u8], request: &[u8]) -> (v: Vec<Step>)
    ensures
        v@.map_values(|s: Step| s@) == spec_trns_steps(typ@, request@),
{
    let trns: Vec<u8> = vec![116, 114, 110, 115];
    assert(trns@ =~= trns_bytes());
    let tu = upper_bytes(typ);
    let mut v: Vec<Step> = Vec::new();
    v.push(Step { send: stars_line(), expect: hash_marker() });
    v.push(Step { send: ovly_line(trns.as_slice()), expect: req_prompt() });
    v.push(Step { send: line_of(request), expect: typ_prompt() });
    v.push(Step { send: line_of(typ), expect: dmo_prompt_bytes(tu.as_slice()) });
    v.push(Step { send: line_of(all_vec().as_slice()), expect: req_prompt() });
    assert(v@.map_values(|s: Step| s@) =~= spec_trns_steps(typ@, request@));
    v
}

/// One scripted exchange and the filename its output is persisted under.
pub struct Fetcher {
    filename: Vec<u8>,
    interactions: Vec<Step>,
}

impl Fetcher {
    /// The derived output filename.
    pub closed spec fn fname(&self) -> Seq<u8> {
        self.filename@
    }

    /// The scripted steps, each as (bytes to send, prompt to await).
    pub closed spec fn steps(&self) -> Seq<(Seq<u8>, Seq<u8>)> {
        self.interactions@.map_values(|s: Step| s@)
    }

    /// The most common exchange, where the answer to the type query is
    /// exactly the next prompt's word: upper-cased and predictably padded.
    pub fn common_dmo(ovly: &str, typ: &str) -> (r: Fetcher)
        ensures
            r.fname() == spec_filename(ovly.spec_bytes(), typ.spec_bytes()),
            r.steps() == spec_standard_steps(
                ovly.spec_bytes(),
                typ.spec_bytes(),
                spec_dmo_prompt(typ_bytes()),
                spec_dmo_prompt(upper(typ.spec_bytes())),
            ),
    {
        let tu = upper_bytes(typ.as_bytes());
        Fetcher {
            filename: derive_filename(ovly, typ),
            interactions: standard_interactions(
                ovly.as_bytes(),
                typ.as_bytes(),
                typ_prompt(),
                dmo_prompt_bytes(tu.as_slice()),
            ),
        }
    }

    /// The standard exchange with the selection prompt given explicitly,
    /// for types whose prompt is not the type's own word, or is padded
    /// inconsistently with the common pattern.
    pub fn common_dmo_with_prompt(ovly: &str, typ: &str, prompt: &str) -> (r: Fetcher)
        ensures
            r.fname() == spec_filename(ovly.spec_bytes(), typ.spec_bytes()),
            r.steps() == spec_standard_steps(
                ovly.spec_bytes(),
                typ.spec_bytes(),
                spec_dmo_prompt(typ_bytes()),
                prompt.spec_bytes(),
            ),
    {
        Fetcher {
            filename: derive_filename(ovly, typ),
            interactions: standard_interactions(
                ovly.as_bytes(),
                typ.as_bytes(),
                typ_prompt(),
                prompt.as_bytes_vec(),
            ),
        }
    }

    /// The standard exchange for the probably-newer overlays that pad both
    /// the type query and the following selection prompt one space wider.
    pub fn wide_dmo_with_prompt(ovly: &str, typ: &str, prompt: &str) -> (r: Fetcher)
        ensures
            r.fname() == spec_filename(ovly.spec_bytes(), typ.spec_bytes()),
            r.steps() == spec_standard_steps(
                ovly.spec_bytes(),
                typ.spec_bytes(),
                wide_typ_prompt(),
                prompt.spec_bytes(),
            ),
    {
        Fetcher {
            filename: derive_filename(ovly, typ),
            interactions: standard_interactions(
                ovly.as_bytes(),
                typ.as_bytes(),
                wide_typ_prompt_vec(),
                prompt.as_bytes_vec(),
            ),
        }
    }

    /// The shortened exchange for types that start emitting data right
    /// after the type query is answered, with no selection step.
    pub fn common_dmo_no_prompt(ovly: &str, typ: &str) -> (r: Fetcher)
        ensures
            r.fname() == spec_filename(ovly.spec_bytes(), typ.spec_bytes()),
            r.steps() == spec_no_prompt_steps(ovly.spec_bytes(), typ.spec_bytes()),
    {
        Fetcher {
            filename: derive_filename(ovly, typ),
            interactions: no_prompt_interactions(ovly.as_bytes(), typ.as_bytes()),
        }
    }

    /// The CLI overlay's exchange: the type query is always answered `cli`,
    /// and an additional nested prompt selects the actual leaf type.
    pub fn cli(ovly: &str, cli: &str, prompt: &str) -> (r: Fetcher)
        ensures
            r.fname() == spec_filename(ovly.spec_bytes(), cli.spec_bytes()),
            r.steps() == spec_cli_steps(ovly.spec_bytes(), cli.spec_bytes(), prompt.spec_bytes()),
    {
        let mut v: Vec<Step> = Vec::new();
        v.push(Step { send: stars_line(), expect: hash_marker() });
        v.push(Step { send: ovly_line(ovly.as_bytes()), expect: req_prompt() });
        v.push(Step { send: line_of(que_vec().as_slice()), expect: typ_prompt() });
        let cli_answer: Vec<u8> = vec![99, 108, 105];
        assert(cli_answer@ =~= cli_answer_bytes());
        v.push(Step { send: line_of(cli_answer.as_slice()), expect: cli_prompt() });
        v.push(Step { send: line_of(cli.as_bytes()), expect: prompt.as_bytes_vec() });
        v.push(Step { send: line_of(all_vec().as_slice()), expect: req_prompt() });
        assert(v@.map_values(|s: Step| s@) =~= spec_cli_steps(
            ovly.spec_bytes(),
            cli.spec_bytes(),
            prompt.spec_bytes(),
        ));
        Fetcher { filename: derive_filename(ovly, cli), interactions: v }
    }

    /// The exchange for active translations: the `trns` overlay queried
    /// with `que`, filed under `TRNS/active/`.
    pub fn trns_active(typ: &str) -> (r: Fetcher)
        ensures
            r.fname() == trns_active_prefix() + upper(typ.spec_bytes()) + txt_suffix(),
            r.steps() == spec_trns_steps(typ.spec_bytes(), que_bytes()),
    {
        let mut filename: Vec<u8> = vec![84, 82, 78, 83, 47, 97, 99, 116, 105, 118, 101, 47];
        assert(filename@ =~= trns_active_prefix());
        let tu = upper_bytes(typ.as_bytes());
        push_all(&mut filename, tu.as_slice());
        let suffix: Vec<u8> = vec![46, 116, 120, 116];
        assert(suffix@ =~= txt_suffix());
        push_all(&mut filename, suffix.as_slice());
        Fetcher { filename, interactions: trns_interactions(typ.as_bytes(), que_vec().as_slice()) }
    }

    /// The exchange for inactive translations: the `trns` overlay queried
    /// with `quei`, filed under `TRNS/inactive/`.
    pub fn trns_inactive(typ: &str) -> (r: Fetcher)
        ensures
            r.fname() == trns_inactive_prefix() + upper(typ.spec_bytes()) + txt_suffix(),
            r.steps() == spec_trns_steps(typ.spec_bytes(), quei_bytes()),
    {
        let mut filename: Vec<u8> = vec![
            84,
            82,
            78,
            83,
            47,
            105,
            110,
            97,
            99,
            116,
            105,
            118,
            101,
            47,
        ];
        assert(filename@ =~= trns_inactive_prefix());
        let tu = upper_bytes(typ.as_bytes());
        push_all(&mut filename, tu.as_slice());
        let suffix: Vec<u8> = vec![46, 116, 120, 116];
        assert(suffix@ =~= txt_suffix());
        push_all(&mut filename, suffix.as_slice());
        let quei: Vec<u8> = vec![113, 117, 101, 105];
        assert(quei@ =~= quei_bytes());
        Fetcher { filename, interactions: trns_interactions(typ.as_bytes(), quei.as_slice()) }
    }

    /// Begin this fetcher's exchange — or, after an operator-directed
    /// cancellation, restart it — from its first step, with nothing
    /// accumulated from any earlier attempt.
    pub fn begin(&self) -> (e: Exchange)
        ensures
            e.stage() == 0,
            e.collected() == Seq::<u8>::empty(),
    {
        Exchange { step: 0, output: Vec::new() }
    }

    /// The filename that identifies this fetcher, for on-disk placement,
    /// logging and operator filtering.
    pub fn filename(&self) -> (r: &Vec<u8>)
        ensures
            r@ == self.fname(),
    {
        &self.filename
    }

    /// How many steps the exchange has.
    pub fn step_count(&self) -> (n: usize)
        ensures
            n == self.steps().len(),
    {
        self.interactions.len()
    }

    /// The `i`th step.
    pub fn step_at(&self, i: usize) -> (s: &Step)
        requires
            i < self.steps().len(),
        ensures
            s@ == self.steps()[i as int],
    {
        &self.interactions[i]
    }
}

/// Do all fetchers of a catalogue derive distinct filenames?
///
/// No two entries of one run's catalogue may write the same path — a typo
/// in two constructors would silently overwrite one task's output with
/// another's — so a run checks its catalogue once at startup and fails fast
/// on a duplicate.
pub fn filenames_unique(catalogue: &Vec<Fetcher>) -> (r: bool)
    ensures
        r == forall|a: int, b: int|
            #![trigger catalogue@[a].fname(), catalogue@[b].fname()]
            0 <= a < b < catalogue@.len() ==> catalogue@[a].fname() != catalogue@[b].fname(),
{
    let n = catalogue.len();
    let mut i: usize = 0;
    while i < n
        invariant
            i <= n == catalogue@.len(),
            forall|a: int, b: int|
                #![trigger catalogue@[a].fname(), catalogue@[b].fname()]
                0 <= a < b < catalogue@.len() && a < i ==> catalogue@[a].fname()
                    != catalogue@[b].fname(),
        decreases n - i,
    {
        let mut j: usize = i + 1;
        while j < n
            invariant
                i < j <= n == catalogue@.len(),
                forall|b: int|
                    i < b < j ==> catalogue@[i as int].fname() != #[trigger] catalogue@[b].fname(),
            decreases n - j,
        {
            if bytes_eq(catalogue[i].filename().as_slice(), catalogue[j].filename().as_slice()) {
                assert(catalogue@[i as int].fname() == catalogue@[j as int].fname());
                return false;
            }
            j = j + 1;
        }
        i = i + 1;
    }
    true
}

/// The progress of one fetcher's exchange: the index of the next step to
/// replay, and the output accumulated from the steps completed so far.
///
/// The replay loop sends the current step's bytes, waits until the session
/// reports the step's prompt, and records the drained buffer segment here;
/// an operator-directed restart simply begins a fresh `Exchange`.
pub struct Exchange {
    step: usize,
    output: Vec<u8>,
}

impl Exchange {
    /// The index of the next step to replay.
    pub closed spec fn stage(&self) -> nat {
        self.step as nat
    }

    /// The concatenated output of the completed steps.
    pub closed spec fn collected(&self) -> Seq<u8> {
        self.output@
    }

    /// Have all of `f`'s steps completed?
    pub fn is_done(&self, f: &Fetcher) -> (r: bool)
        ensures
            r == (self.stage() >= f.steps().len()),
    {
        self.step >= f.step_count()
    }

    /// The step the exchange replays next.
    pub fn current_step<'a>(&self, f: &'a Fetcher) -> (s: &'a Step)
        requires
            self.stage() < f.steps().len(),
        ensures
            s@ == f.steps()[self.stage() as int],
    {
        f.step_at(self.step)
    }

    /// Record the buffer segment drained after the current step's prompt
    /// matched, and advance to the next step.
    pub fn record(&mut self, f: &Fetcher, segment: &[u8])
        requires
            old(self).stage() < f.steps().len(),
        ensures
            final(self).stage() == old(self).stage() + 1,
            final(self).collected() == old(self).collected() + segment@,
    {
        push_all(&mut self.output, segment);
        let bound = f.step_count();
        assert(self.step < bound);
        self.step = self.step + 1;
    }

    /// The exchange's whole accumulated output, once every step is done.
    pub fn into_output(self) -> (out: Vec<u8>)
        ensures
            out@ == self.collected(),
    {
        self.output
    }
}

} // verus!
