//! The words by which the complexity of a prompt is judged.

use crate::source::Source;
use crate::text::views;
use vstd::prelude::*;

verus! {

/// Built-in code markers.
pub const CODE_MARKERS: [&'static str; 23] = [
    "```", "fn ", "pub fn", "async fn", "def ", "class ", "import ", "package ", "#include",
    "impl ", "struct ", "enum ", "trait ", "let mut", "const ", "var ", "function", "export",
    "require", "SELECT ", "INSERT ", "UPDATE ", "DELETE ",
];

/// Built-in technical vocabulary, in French, English and Arabic.
pub const TECHNICAL_KEYWORDS: [&'static str; 196] = [
    // French
    "explique", "analyse", "compare", "pourquoi", "comment", "architecture", "design pattern",
    "complexité", "optimise", "optimisation", "algorithme", "sécurité", "debug", "thread",
    "concurrent", "parallèle", "mémoire", "cache", "distribué", "microservice", "kubernetes",
    "benchmark", "tradeoff", "trade-off", "meilleure pratique", "différence entre",
    "implémente", "configure", "déploie", "compile", "refactorise", "abstrait", "hérite",
    "polymorphisme", "encapsule", "middleware", "endpoint", "authentification", "autorisation",
    "chiffre", "déchiffre", "certificat", "protocole", "latence", "scalabilité", "résilience",
    "transaction", "index", "requête", "schéma", "normalise", "migre", "test unitaire", "mock",
    "stub", "intégration", "pipeline", "conteneur", "orchestre", "monitor", "alerte",
    "sauvegarde", "restaure", "framework",
    // English
    "explain", "analyze", "compare", "why", "how", "architecture", "design pattern",
    "complexity", "optimize", "optimization", "algorithm", "security", "debug", "thread",
    "concurrent", "parallel", "memory", "cache", "distributed", "microservice", "kubernetes",
    "benchmark", "tradeoff", "trade-off", "best practice", "difference between", "implement",
    "configure", "deploy", "compile", "refactor", "abstract", "inherit", "polymorphism",
    "encapsulate", "middleware", "endpoint", "authentication", "authorization", "encrypt",
    "decrypt", "certificate", "protocol", "latency", "scalability", "resilience", "transaction",
    "index", "query", "schema", "normalize", "migrate", "unit test", "mock", "stub",
    "integration", "pipeline", "container", "orchestrate", "monitor", "alert", "backup",
    "restore", "framework", "async", "docker",
    // Arabic
    "اشرح", "حلل", "قارن", "لماذا", "كيف", "معمارية", "نمط تصميم", "تعقيد", "حسّن", "تحسين",
    "خوارزمية", "أمان", "أمن", "تصحيح", "خيط", "تزامن", "متزامن", "متوازي", "ذاكرة",
    "تخزين مؤقت", "موزع", "توزيع", "خدمة مصغرة", "كوبرنتيس", "مقارنة", "أفضل ممارسة", "فرق بين",
    "نفذ", "تنفيذ", "إعداد", "انشر", "نشر", "ترجم", "ترجمة", "إعادة هيكلة", "تجريد", "وراثة",
    "تعدد أشكال", "تغليف", "وسيط", "نقطة نهاية", "مصادقة", "تفويض", "تشفير", "فك تشفير",
    "شهادة", "بروتوكول", "كمون", "قابلية توسع", "مرونة", "معاملة", "فهرس", "استعلام", "مخطط",
    "هجرة", "قاعدة بيانات", "اختبار وحدة", "خط أنابيب", "حاوية", "راقب", "مراقبة", "سجل",
    "تنبيه", "نسخ احتياطي", "استعادة", "إطار عمل",
];

/// Built-in question words, in French, English and Arabic.
pub const QUESTION_WORDS: [&'static str; 29] = [
    // French
    "pourquoi", "comment", "qu'est-ce que", "quelle est", "peux-tu", "quel est", "que", "qui",
    "où", "quand", "lequel",
    // English
    "how", "why", "what is", "can you", "what", "who", "where", "when", "which",
    // Arabic
    "لماذا", "كيف", "ما هو", "هل يمكنك", "ما", "من", "أين", "متى", "أي",
];

/// Scoring keywords as they stand in `keywords.yaml`.
#[derive(Debug)]
pub struct RawScoringKeywords {
    pub code_markers: Option<Vec<String>>,
    pub technical_keywords: Option<Vec<String>>,
    pub question_words: Option<Vec<String>>,
}

/// Complexity scoring keywords.
/// They fall back to built-in defaults when the file is missing or a section is empty.
#[derive(Debug, Clone)]
pub struct ScoringKeywords {
    /// Code markers (e.g. ```, fn , class , SELECT )
    pub code_markers: Vec<String>,
    /// Technical vocabulary indicating complexity
    pub technical_keywords: Vec<String>,
    /// Question words used to detect open-ended prompts
    pub question_words: Vec<String>,
}

/// The words of a built-in list.
pub open spec fn words_of(list: Seq<&'static str>) -> Seq<Seq<char>> {
    list.map_values(|w: &'static str| w@)
}

/// The words of a section: those that the file gives, or the built-in ones where it
/// gives none.
pub open spec fn section_words(given: Option<Vec<String>>, built_in: Seq<Seq<char>>) -> Seq<
    Seq<char>,
> {
    match given {
        Some(words) => if words@.len() > 0 {
            views(words@)
        } else {
            built_in
        },
        None => built_in,
    }
}

impl ScoringKeywords {
    /// All three lists are the built-in ones.
    pub open spec fn is_built_in(self) -> bool {
        &&& views(self.code_markers@) == words_of(CODE_MARKERS@)
        &&& views(self.technical_keywords@) == words_of(TECHNICAL_KEYWORDS@)
        &&& views(self.question_words@) == words_of(QUESTION_WORDS@)
    }

    /// The keywords are those of the file, with the built-in ones for each section that
    /// it leaves out or empty. They are the built-in ones where the file is missing or
    /// malformed.
    pub open spec fn loads(self, source: Source<RawScoringKeywords>) -> bool {
        match source {
            Source::Parsed(raw) => {
                &&& views(self.code_markers@) == section_words(
                    raw.code_markers,
                    words_of(CODE_MARKERS@),
                )
                &&& views(self.technical_keywords@) == section_words(
                    raw.technical_keywords,
                    words_of(TECHNICAL_KEYWORDS@),
                )
                &&& views(self.question_words@) == section_words(
                    raw.question_words,
                    words_of(QUESTION_WORDS@),
                )
            },
            _ => self.is_built_in(),
        }
    }
}

fn owned_words(list: &[&'static str]) -> (res: Vec<String>)
    ensures
        views(res@) == words_of(list@),
{
    let mut res: Vec<String> = Vec::new();
    let mut k: usize = 0;
    while k < list.len()
        invariant
            k <= list@.len(),
            res@.len() == k,
            forall|j: int| 0 <= j < k ==> (#[trigger] res@[j])@ == list@[j]@,
        decreases list@.len() - k,
    {
        res.push(list[k].to_owned());
        k += 1;
    }
    assert(views(res@) =~= words_of(list@));
    res
}

/// The built-in code markers.
pub fn default_code_markers() -> (res: Vec<String>)
    ensures
        views(res@) == words_of(CODE_MARKERS@),
        res@.len() == 23,
        forall|k: int| 0 <= k < 23 ==> (#[trigger] res@[k])@ == CODE_MARKERS@[k]@,
{
    let res = owned_words(CODE_MARKERS.as_slice());
    assert(views(res@).len() == words_of(CODE_MARKERS@).len());
    assert forall|k: int| 0 <= k < 23 implies (#[trigger] res@[k])@ == CODE_MARKERS@[k]@ by {
        assert(views(res@)[k] == words_of(CODE_MARKERS@)[k]);
    }
    res
}

/// The built-in technical vocabulary.
pub fn default_technical_keywords() -> (res: Vec<String>)
    ensures
        views(res@) == words_of(TECHNICAL_KEYWORDS@),
        res@.len() == 196,
        forall|k: int| 0 <= k < 196 ==> (#[trigger] res@[k])@ == TECHNICAL_KEYWORDS@[k]@,
{
    let res = owned_words(TECHNICAL_KEYWORDS.as_slice());
    assert(views(res@).len() == words_of(TECHNICAL_KEYWORDS@).len());
    assert forall|k: int| 0 <= k < 196 implies (#[trigger] res@[k])@ == TECHNICAL_KEYWORDS@[k]@ by {
        assert(views(res@)[k] == words_of(TECHNICAL_KEYWORDS@)[k]);
    }
    res
}

/// The built-in question words.
pub fn default_question_words() -> (res: Vec<String>)
    ensures
        views(res@) == words_of(QUESTION_WORDS@),
        res@.len() == 29,
        forall|k: int| 0 <= k < 29 ==> (#[trigger] res@[k])@ == QUESTION_WORDS@[k]@,
{
    let res = owned_words(QUESTION_WORDS.as_slice());
    assert(views(res@).len() == words_of(QUESTION_WORDS@).len());
    assert forall|k: int| 0 <= k < 29 implies (#[trigger] res@[k])@ == QUESTION_WORDS@[k]@ by {
        assert(views(res@)[k] == words_of(QUESTION_WORDS@)[k]);
    }
    res
}

impl Default for ScoringKeywords {
    fn default() -> (res: Self)
        ensures
            res.is_built_in(),
    {
        ScoringKeywords {
            code_markers: default_code_markers(),
            technical_keywords: default_technical_keywords(),
            question_words: default_question_words(),
        }
    }
}

impl ScoringKeywords {
    /// Takes the scoring keywords from a YAML file that was read and parsed.
    ///
    /// Falls back to built-in defaults if the file is missing, the YAML is invalid, or
    /// a section is empty.
    pub fn load(source: Source<RawScoringKeywords>) -> (res: Self)
        ensures
            res.loads(source),
            res.code_markers@.len() > 0,
            res.technical_keywords@.len() > 0,
            res.question_words@.len() > 0,
    {
        let res = match source {
            Source::Parsed(raw) => ScoringKeywords {
                code_markers: match raw.code_markers {
                    Some(words) if words.len() > 0 => words,
                    _ => default_code_markers(),
                },
                technical_keywords: match raw.technical_keywords {
                    Some(words) if words.len() > 0 => words,
                    _ => default_technical_keywords(),
                },
                question_words: match raw.question_words {
                    Some(words) if words.len() > 0 => words,
                    _ => default_question_words(),
                },
            },
            _ => ScoringKeywords::default(),
        };
        assert(views(res.code_markers@).len() > 0);
        assert(views(res.technical_keywords@).len() > 0);
        assert(views(res.question_words@).len() > 0);
        res
    }
}

/// A file that lists code markers gives just those, in order. The built-in ones stand in where
/// it leaves them out, lists none, or cannot be used.
pub proof fn law_code_markers_of_a_file(
    keywords: ScoringKeywords,
    source: Source<RawScoringKeywords>,
    listed: Seq<String>,
    k: int,
)
    requires
        keywords.loads(source),
        listed == match source {
            Source::Parsed(raw) => match raw.code_markers {
                Some(words) => words@,
                None => Seq::empty(),
            },
            _ => Seq::empty(),
        },
    ensures
        listed.len() > 0 ==> keywords.code_markers@.len() == listed.len(),
        0 <= k < listed.len() ==> keywords.code_markers@[k]@ == listed[k]@,
        listed.len() == 0 ==> keywords.code_markers@.len() == CODE_MARKERS@.len(),
        listed.len() == 0 && 0 <= k < CODE_MARKERS@.len() ==> keywords.code_markers@[k]@
            == CODE_MARKERS@[k]@,
{
    let list = views(keywords.code_markers@);
    assert(list.len() == keywords.code_markers@.len());
    if 0 <= k < list.len() {
        assert(list[k] == keywords.code_markers@[k]@);
    }
}

/// A file that lists technical keywords gives just those, in order. The built-in ones stand in where
/// it leaves them out, lists none, or cannot be used.
pub proof fn law_technical_keywords_of_a_file(
    keywords: ScoringKeywords,
    source: Source<RawScoringKeywords>,
    listed: Seq<String>,
    k: int,
)
    requires
        keywords.loads(source),
        listed == match source {
            Source::Parsed(raw) => match raw.technical_keywords {
                Some(words) => words@,
                None => Seq::empty(),
            },
            _ => Seq::empty(),
        },
    ensures
        listed.len() > 0 ==> keywords.technical_keywords@.len() == listed.len(),
        0 <= k < listed.len() ==> keywords.technical_keywords@[k]@ == listed[k]@,
        listed.len() == 0 ==> keywords.technical_keywords@.len() == TECHNICAL_KEYWORDS@.len(),
        listed.len() == 0 && 0 <= k < TECHNICAL_KEYWORDS@.len() ==> keywords.technical_keywords@[k]@
            == TECHNICAL_KEYWORDS@[k]@,
{
    let list = views(keywords.technical_keywords@);
    assert(list.len() == keywords.technical_keywords@.len());
    if 0 <= k < list.len() {
        assert(list[k] == keywords.technical_keywords@[k]@);
    }
}

/// A file that lists question words gives just those, in order. The built-in ones stand in where
/// it leaves them out, lists none, or cannot be used.
pub proof fn law_question_words_of_a_file(
    keywords: ScoringKeywords,
    source: Source<RawScoringKeywords>,
    listed: Seq<String>,
    k: int,
)
    requires
        keywords.loads(source),
        listed == match source {
            Source::Parsed(raw) => match raw.question_words {
                Some(words) => words@,
                None => Seq::empty(),
            },
            _ => Seq::empty(),
        },
    ensures
        listed.len() > 0 ==> keywords.question_words@.len() == listed.len(),
        0 <= k < listed.len() ==> keywords.question_words@[k]@ == listed[k]@,
        listed.len() == 0 ==> keywords.question_words@.len() == QUESTION_WORDS@.len(),
        listed.len() == 0 && 0 <= k < QUESTION_WORDS@.len() ==> keywords.question_words@[k]@
            == QUESTION_WORDS@[k]@,
{
    let list = views(keywords.question_words@);
    assert(list.len() == keywords.question_words@.len());
    if 0 <= k < list.len() {
        assert(list[k] == keywords.question_words@[k]@);
    }
}

/// What is taken for a sign of code.
pub proof fn law_code_markers()
    ensures
        CODE_MARKERS@.len() == 23,
        words_of(CODE_MARKERS@).subrange(0, 23) == seq![
            "```"@, "fn "@, "pub fn"@, "async fn"@, "def "@, "class "@, "import "@,
            "package "@, "#include"@, "impl "@, "struct "@, "enum "@, "trait "@, "let mut"@,
            "const "@, "var "@, "function"@, "export"@, "require"@, "SELECT "@, "INSERT "@,
            "UPDATE "@, "DELETE "@,
        ],
{
}

/// The French words that make a prompt technical come first.
pub proof fn law_french_vocabulary()
    ensures
        TECHNICAL_KEYWORDS@.len() == 196,
        words_of(TECHNICAL_KEYWORDS@).subrange(0, 64) == seq![
            "explique"@, "analyse"@, "compare"@, "pourquoi"@, "comment"@, "architecture"@,
            "design pattern"@, "complexité"@, "optimise"@, "optimisation"@, "algorithme"@,
            "sécurité"@, "debug"@, "thread"@, "concurrent"@, "parallèle"@, "mémoire"@,
            "cache"@, "distribué"@, "microservice"@, "kubernetes"@, "benchmark"@, "tradeoff"@,
            "trade-off"@, "meilleure pratique"@, "différence entre"@, "implémente"@,
            "configure"@, "déploie"@, "compile"@, "refactorise"@, "abstrait"@, "hérite"@,
            "polymorphisme"@, "encapsule"@, "middleware"@, "endpoint"@, "authentification"@,
            "autorisation"@, "chiffre"@, "déchiffre"@, "certificat"@, "protocole"@, "latence"@,
            "scalabilité"@, "résilience"@, "transaction"@, "index"@, "requête"@, "schéma"@,
            "normalise"@, "migre"@, "test unitaire"@, "mock"@, "stub"@, "intégration"@,
            "pipeline"@, "conteneur"@, "orchestre"@, "monitor"@, "alerte"@, "sauvegarde"@,
            "restaure"@, "framework"@,
        ],
{
}

/// The English words that make a prompt technical follow.
pub proof fn law_english_vocabulary()
    ensures
        TECHNICAL_KEYWORDS@.len() == 196,
        words_of(TECHNICAL_KEYWORDS@).subrange(64, 130) == seq![
            "explain"@, "analyze"@, "compare"@, "why"@, "how"@, "architecture"@,
            "design pattern"@, "complexity"@, "optimize"@, "optimization"@, "algorithm"@,
            "security"@, "debug"@, "thread"@, "concurrent"@, "parallel"@, "memory"@, "cache"@,
            "distributed"@, "microservice"@, "kubernetes"@, "benchmark"@, "tradeoff"@,
            "trade-off"@, "best practice"@, "difference between"@, "implement"@, "configure"@,
            "deploy"@, "compile"@, "refactor"@, "abstract"@, "inherit"@, "polymorphism"@,
            "encapsulate"@, "middleware"@, "endpoint"@, "authentication"@, "authorization"@,
            "encrypt"@, "decrypt"@, "certificate"@, "protocol"@, "latency"@, "scalability"@,
            "resilience"@, "transaction"@, "index"@, "query"@, "schema"@, "normalize"@,
            "migrate"@, "unit test"@, "mock"@, "stub"@, "integration"@, "pipeline"@,
            "container"@, "orchestrate"@, "monitor"@, "alert"@, "backup"@, "restore"@,
            "framework"@, "async"@, "docker"@,
        ],
{
}

/// The Arabic words that make a prompt technical come last.
pub proof fn law_arabic_vocabulary()
    ensures
        TECHNICAL_KEYWORDS@.len() == 196,
        words_of(TECHNICAL_KEYWORDS@).subrange(130, 196) == seq![
            "اشرح"@, "حلل"@, "قارن"@, "لماذا"@, "كيف"@, "معمارية"@, "نمط تصميم"@, "تعقيد"@,
            "حسّن"@, "تحسين"@, "خوارزمية"@, "أمان"@, "أمن"@, "تصحيح"@, "خيط"@, "تزامن"@,
            "متزامن"@, "متوازي"@, "ذاكرة"@, "تخزين مؤقت"@, "موزع"@, "توزيع"@, "خدمة مصغرة"@,
            "كوبرنتيس"@, "مقارنة"@, "أفضل ممارسة"@, "فرق بين"@, "نفذ"@, "تنفيذ"@, "إعداد"@,
            "انشر"@, "نشر"@, "ترجم"@, "ترجمة"@, "إعادة هيكلة"@, "تجريد"@, "وراثة"@,
            "تعدد أشكال"@, "تغليف"@, "وسيط"@, "نقطة نهاية"@, "مصادقة"@, "تفويض"@, "تشفير"@,
            "فك تشفير"@, "شهادة"@, "بروتوكول"@, "كمون"@, "قابلية توسع"@, "مرونة"@, "معاملة"@,
            "فهرس"@, "استعلام"@, "مخطط"@, "هجرة"@, "قاعدة بيانات"@, "اختبار وحدة"@,
            "خط أنابيب"@, "حاوية"@, "راقب"@, "مراقبة"@, "سجل"@, "تنبيه"@, "نسخ احتياطي"@,
            "استعادة"@, "إطار عمل"@,
        ],
{
}

/// The French question words come first.
pub proof fn law_french_questions()
    ensures
        QUESTION_WORDS@.len() == 29,
        words_of(QUESTION_WORDS@).subrange(0, 11) == seq![
            "pourquoi"@, "comment"@, "qu'est-ce que"@, "quelle est"@, "peux-tu"@, "quel est"@,
            "que"@, "qui"@, "où"@, "quand"@, "lequel"@,
        ],
{
}

/// The English question words follow.
pub proof fn law_english_questions()
    ensures
        QUESTION_WORDS@.len() == 29,
        words_of(QUESTION_WORDS@).subrange(11, 20) == seq![
            "how"@, "why"@, "what is"@, "can you"@, "what"@, "who"@, "where"@, "when"@,
            "which"@,
        ],
{
}

/// The Arabic question words come last.
pub proof fn law_arabic_questions()
    ensures
        QUESTION_WORDS@.len() == 29,
        words_of(QUESTION_WORDS@).subrange(20, 29) == seq![
            "لماذا"@, "كيف"@, "ما هو"@, "هل يمكنك"@, "ما"@, "من"@, "أين"@, "متى"@, "أي"@,
        ],
{
}

} // verus!
