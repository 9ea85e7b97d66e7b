//! English word list, used to tell English typing from Vietnamese.
//!
//! A dictionary is a list of words read from a text with one word per
//! line. Looking a word up ignores its case.

use crate::settings::json::{index_of, lemma_index_of, slice_of};
use crate::utils::chars_of;
use vstd::prelude::*;

verus! {

/// The built-in word list: common English words, one per line.
pub const ENGLISH_WORDS: &'static str = "the\nof\nand\nto\nin\nis\nthat\nit\nwas\nfor\non\nare\nas\nwith\nhis\nthey\nat\nbe\n\
    this\nhave\nfrom\nor\none\nhad\nby\nword\nbut\nnot\nwhat\nall\nwere\nwe\nwhen\n\
    your\ncan\nsaid\nthere\nuse\nan\neach\nwhich\nshe\ndo\nhow\ntheir\nif\nwill\nup\n\
    other\nabout\nout\nmany\nthen\nthem\nthese\nso\nsome\nher\nwould\nmake\nlike\nhim\n\
    into\ntime\nhas\nlook\ntwo\nmore\nwrite\ngo\nsee\nnumber\nno\nway\ncould\npeople\n\
    my\nthan\nfirst\nwater\nbeen\ncall\nwho\noil\nits\nnow\nfind\nlong\ndown\nday\ndid\n\
    get\ncome\nmade\nmay\npart\nview\nlist\nlists\noff\ntoo\nbook\ngood\nfood\ndoor\n\
    need\nfeel\nkeep\nfree\ntree\nthree\nweek\nseem\nseen\nmeet\nfeet\ndeep\nsleep\n\
    street\nbetween\nagree\nschool\nroom\nsoon\nmoon\ncool\npool\ntool\nfoot\ntook\n\
    wood\nstood\nfloor\npoor\nchoose\nloose\nzoom\nclass\npass\nless\nmiss\nkiss\nboss\n\
    loss\ncross\ndress\npress\nstress\naccess\naddress\nsuccess\nprocess\nbusiness\n\
    express\nglass\ngrass\nmass\nissue\ntissue\nmessage\npassage\nlesson\npossible\n\
    assume\nassess\nasset\nassign\nassist\nessay\nessential\neffect\neffort\noffice\n\
    offer\ncoffee\nstaff\nstuff\nsuffer\ndiffer\ndifferent\ndifficult\ntraffic\nafford\n\
    affair\naffect\narrive\narray\narrow\nborrow\ncarry\nmarry\nsorry\nworry\nhurry\n\
    error\nmirror\nterror\ncorrect\ncurrent\ntomorrow\nnarrow\ncarrot\nmerry\nberry\n\
    cherry\nferry\nterrible\nhorrible\nterritory\nsurround\ninterrupt\nwarrant\nbox\n\
    fix\nmix\nsix\ntax\nwax\nfox\nnext\ntext\nexit\nexam\nextra\nexact\nexample\n\
    expect\nexplain\nexport\nexpand\nexplore\nextend\nexcept\nexcuse\nexecute\n\
    exercise\nexist\nexpense\nexperience\nexpert\njust\njob\njoin\njoy\njump\njudge\n\
    juice\nmajor\nobject\nproject\nsubject\nenjoy\ninjury\nadjust\nwindow\nreview\n\
    preview\ninterview\nnew\nnews\nfew\nlow\nshow\nknow\ngrow\nflow\nslow\nsnow\nblow\n\
    throw\nfollow\nbelow\nallow\nyellow\npower\ntower\nflower\nshower\nanswer\nlower\n\
    own\ntown\nbrown\ncrown\nlaw\nsaw\nraw\ndraw\njaw\nwar\nwall\nwant\nwarm\nwash\n\
    watch\nwave\nweb\nwell\nwent\nwest\nwet\nwhere\nwhile\nwhite\nwhole\nwhy\nwide\n\
    wife\nwild\nwin\nwind\nwine\nwing\nwinter\nwire\nwise\nwish\nwoman\nwomen\nwon\n\
    wonder\nwork\nworld\nworth\nwrong\nafter\nagain\nair\nalso\nalways\nanimal\n\
    another\nany\naround\nask\naway\nback\nbecause\nbefore\nbegan\nbegin\nbeing\nbest\n\
    better\nbig\nblack\nblue\nbody\nboth\nboy\nbring\nbuild\ncame\ncar\ncare\ncase\n\
    change\nchild\nchildren\ncity\nclose\ncold\ncolor\ncountry\ncourse\ncut\ndark\n\
    dear\ndoes\ndone\nduring\nearly\nearth\neast\neat\nend\nenough\neven\never\nevery\n\
    eye\nface\nfact\nfamily\nfar\nfarm\nfast\nfather\nfine\nfire\nfish\nfive\nfly\n\
    form\nfound\nfour\nfriend\nfront\nfull\ngame\ngave\ngirl\ngive\ngold\ngone\ngot\n\
    great\ngreen\nground\ngroup\nhalf\nhand\nhard\nhead\nhear\nheard\nheart\nheat\n\
    help\nhere\nhigh\nhold\nhome\nhorse\nhot\nhour\nhouse\nhundred\nidea\nimportant\n\
    inside\nisland\nkind\nking\nknew\nland\nlarge\nlast\nlate\nlearn\nleft\nlet\n\
    letter\nlife\nlight\nline\nlittle\nlive\nlove\nman\nmark\nmean\nmen\nmight\nmile\n\
    mind\nmoney\nmonth\nmorning\nmost\nmother\nmountain\nmove\nmuch\nmusic\nmust\nname\n\
    near\nnever\nnight\nnorth\nnote\nnothing\nnotice\noften\nold\nonce\nonly\nopen\n\
    order\nover\npage\npaper\npattern\nperhaps\nperson\npicture\npiece\nplace\nplan\n\
    plant\nplay\npoint\nproblem\npull\nput\nquestion\nquick\nquite\nrain\nran\nreach\n\
    read\nready\nreal\nred\nrest\nright\nriver\nroad\nrock\nround\nrule\nrun\nsame\n\
    say\nsea\nsecond\nsentence\nset\nseveral\nshall\nship\nshort\nshould\nside\nsimple\n\
    since\nsing\nsit\nsize\nsmall\nsong\nsound\nsouth\nspace\nspecial\nstand\nstar\n\
    start\nstate\nstay\nstep\nstill\nstop\nstory\nstrong\nstudy\nsuch\nsun\nsure\n\
    table\ntake\ntalk\nteach\ntell\nten\ntest\nthank\nthing\nthink\nthought\nthousand\n\
    through\ntoday\ntogether\ntold\ntop\ntoward\ntravel\ntrue\ntry\nturn\nunder\nunit\n\
    until\nupon\nusual\nvery\nvoice\nvowel\nwalk\nweight\nwhether\nyear\nyes\nyet\n\
    young\nuser\nfile\ncode\ndata\ntype\nvalue\nkey\ninput\noutput\nkeyboard\nmode\n\
    setting\nsettings\ndefault\nmethod\nengine\nbuffer\nscreen\n";

/// The lowercase form of a text, as `str::to_lowercase` of the standard
/// library defines it.
pub uninterp spec fn lowercase_of(s: Seq<char>) -> Seq<char>;

/// `str::to_lowercase` of the standard library: the result is the
/// lowercase form of the slice, a function of its characters alone.
pub assume_specification[ str::to_lowercase ](s: &str) -> (r: String)
    ensures
        r@ == lowercase_of(s@),
;

/// Whether every character of a text is an ASCII character.
pub open spec fn all_ascii(s: Seq<char>) -> bool {
    forall|i: int| 0 <= i < s.len() ==> (#[trigger] s[i]) as u32 <= 127
}

/// The lowercase form of an ASCII character.
pub open spec fn ascii_lower(c: char) -> char {
    if 'A' <= c <= 'Z' {
        (c as u8 + 32) as u8 as char
    } else {
        c
    }
}

/// The form in which a word is looked up: an ASCII word with each
/// letter in lower case, any other word in its lowercase form.
pub open spec fn lowered(s: Seq<char>) -> Seq<char> {
    if all_ascii(s) {
        Seq::new(s.len(), |i: int| ascii_lower(s[i]))
    } else {
        lowercase_of(s)
    }
}

/// Looking a word up ignores the case of ASCII letters: two ASCII words
/// that differ in case alone are looked up in the same form.
pub proof fn lemma_lookup_ignores_case(a: Seq<char>, b: Seq<char>)
    requires
        all_ascii(a),
        all_ascii(b),
        a.len() == b.len(),
        forall|i: int| 0 <= i < a.len() ==> ascii_lower(a[i]) == ascii_lower(b[i]),
    ensures
        lowered(a) == lowered(b),
{
    assert(lowered(a) =~= lowered(b));
}

/// A word of lowercase ASCII letters is looked up as it is.
pub proof fn lemma_lowercase_word_is_itself(a: Seq<char>)
    requires
        forall|i: int| 0 <= i < a.len() ==> 'a' <= #[trigger] a[i] <= 'z',
    ensures
        lowered(a) == a,
{
    assert(all_ascii(a));
    assert(lowered(a) =~= a);
}

/// A line without the carriage return that may end it.
pub open spec fn chomped(line: Seq<char>) -> Seq<char> {
    if line.len() > 0 && line.last() == '\r' {
        line.drop_last()
    } else {
        line
    }
}

/// The words of a text from index `from` on: its lines that are not
/// empty. A line ends at a line feed; a carriage return before the line
/// feed is not part of the line.
pub open spec fn words_from(text: Seq<char>, from: int) -> Seq<Seq<char>>
    decreases text.len() - from,
{
    if from < 0 || from >= text.len() {
        Seq::empty()
    } else {
        let end = index_of(text, '\n', from);
        if end < from {
            Seq::empty()
        } else if end >= text.len() {
            seq![text.subrange(from, text.len() as int)]
        } else if chomped(text.subrange(from, end)).len() > 0 {
            seq![chomped(text.subrange(from, end))] + words_from(text, end + 1)
        } else {
            words_from(text, end + 1)
        }
    }
}

/// The words of a text.
pub open spec fn words_of(text: Seq<char>) -> Seq<Seq<char>> {
    words_from(text, 0)
}

/// The views of a list of words.
pub open spec fn word_views(list: Seq<Vec<char>>) -> Seq<Seq<char>> {
    Seq::new(list.len(), |i: int| list[i]@)
}

/// A list of words.
pub struct Dictionary {
    words: Vec<Vec<char>>,
}

impl View for Dictionary {
    type V = Seq<Seq<char>>;

    closed spec fn view(&self) -> Seq<Seq<char>> {
        word_views(self.words@)
    }
}

impl Dictionary {
    /// The dictionary of the words of a text, one word per line.
    pub fn from_text(text: &str) -> (dict: Dictionary)
        ensures
            dict@ == words_of(text@),
    {
        let chars = chars_of(text);
        let len = chars.len();
        let mut words: Vec<Vec<char>> = Vec::new();
        let mut from: usize = 0;
        while from < len
            invariant
                from <= len,
                len == chars@.len(),
                word_views(words@) + words_from(chars@, from as int) == words_of(chars@),
            decreases len - from,
        {
            proof {
                lemma_index_of_from(chars@, '\n', from as int);
            }
            let ghost before = word_views(words@);
            let end = Self::line_end(&chars, from);
            let mut stop = end;
            if end < len && stop > from && chars[stop - 1] == '\r' {
                stop = stop - 1;
            }
            let line = slice_of(&chars, from, stop);
            assert(end < len ==> line@ =~= chomped(chars@.subrange(from as int, end as int)));
            assert(end >= len ==> line@ =~= chars@.subrange(from as int, len as int));
            let next: usize = if end < len {
                end + 1
            } else {
                len
            };
            let ghost rest = words_from(chars@, next as int);
            if line.len() > 0 {
                words.push(line);
                assert(word_views(words@) + rest =~= before + (seq![line@] + rest));
            }
            from = next;
        }
        assert(word_views(words@) =~= word_views(words@) + words_from(chars@, len as int));
        Dictionary { words }
    }

    /// The index of the line feed that ends the line beginning at `from`,
    /// or the length of the text.
    fn line_end(chars: &Vec<char>, from: usize) -> (end: usize)
        requires
            from <= chars@.len(),
        ensures
            from <= end <= chars@.len(),
            end == index_of(chars@, '\n', from as int),
    {
        let len = chars.len();
        let mut i: usize = from;
        while i < len && chars[i] != '\n'
            invariant
                from <= i <= len,
                len == chars@.len(),
                index_of(chars@, '\n', from as int) == index_of(chars@, '\n', i as int),
            decreases len - i,
        {
            i += 1;
        }
        i
    }

    /// The built-in dictionary of common English words.
    pub fn english() -> (dict: Dictionary)
        ensures
            dict@ == words_of(ENGLISH_WORDS@),
    {
        Dictionary::from_text(ENGLISH_WORDS)
    }

    /// The number of words.
    pub fn len(&self) -> (n: usize)
        ensures
            n == self@.len(),
    {
        self.words.len()
    }

    /// Whether the dictionary holds exactly this word.
    pub fn contains_chars(&self, word: &Vec<char>) -> (b: bool)
        ensures
            b == self@.contains(word@),
    {
        let mut i: usize = 0;
        while i < self.words.len()
            invariant
                i <= self.words.len(),
                forall|j: int| 0 <= j < i ==> self@[j] != word@,
            decreases self.words.len() - i,
        {
            assert(self@[i as int] == self.words@[i as int]@);
            if same_chars(&self.words[i], word) {
                return true;
            }
            i += 1;
        }
        false
    }

    /// Whether the dictionary holds the word in the form it is looked up
    /// in, which ignores the case of the word.
    pub fn contains(&self, word: &str) -> (b: bool)
        ensures
            b == self@.contains(lowered(word@)),
    {
        let chars = chars_of(word);
        let mut lower: Vec<char> = Vec::new();
        let mut i: usize = 0;
        while i < chars.len()
            invariant
                i <= chars.len(),
                chars@ == word@,
                lower@.len() == i,
                forall|j: int| 0 <= j < i ==> (#[trigger] chars@[j]) as u32 <= 127,
                forall|j: int| 0 <= j < i ==> lower@[j] == ascii_lower(chars@[j]),
            decreases chars.len() - i,
        {
            let c = chars[i];
            if c as u32 > 127 {
                assert(!all_ascii(word@));
                let whole = word.to_lowercase();
                return self.contains_chars(&chars_of(whole.as_str()));
            }
            lower.push(
                if 'A' <= c && c <= 'Z' {
                    (c as u8 + 32) as char
                } else {
                    c
                },
            );
            i += 1;
        }
        assert(all_ascii(word@));
        assert(lower@ =~= lowered(word@));
        self.contains_chars(&lower)
    }
}

/// `index_of` from a position stays within the text.
proof fn lemma_index_of_from(s: Seq<char>, c: char, from: int)
    requires
        0 <= from <= s.len(),
    ensures
        from <= index_of(s, c, from) <= s.len(),
{
    lemma_index_of(s, c, from);
}

/// Whether two texts are the same.
fn same_chars(a: &Vec<char>, b: &Vec<char>) -> (same: bool)
    ensures
        same == (a@ == b@),
{
    if a.len() != b.len() {
        return false;
    }
    let mut i: usize = 0;
    while i < a.len()
        invariant
            i <= a.len(),
            a@.len() == b@.len(),
            forall|j: int| 0 <= j < i ==> a@[j] == b@[j],
        decreases a.len() - i,
    {
        if a[i] != b[i] {
            return false;
        }
        i += 1;
    }
    assert(a@ =~= b@);
    true
}

/// Whether a word is in the built-in English dictionary, whatever its
/// case.
pub fn is_english_word(word: &str) -> (b: bool)
    ensures
        b == words_of(ENGLISH_WORDS@).contains(lowered(word@)),
{
    Dictionary::english().contains(word)
}

} // verus!
