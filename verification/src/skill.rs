use vstd::prelude::*;

verus! {

/// A skill of the character system: a numeric id, a display name, and the
/// default rank a character without the skill falls back to, if any.
#[derive(PartialEq, Debug)]
pub struct Skill {
    pub id: usize,
    pub name: String,
    pub default: Option<i32>,
}

/// The registry of skills, looked up by id or by name. When several skills
/// share an id or a name, the one registered last wins.
pub struct SkillMgr {
    skills: Vec<Skill>,
}

impl SkillMgr {
    /// The registered skills, in registration order.
    pub closed spec fn view(self) -> Seq<Skill> {
        self.skills@
    }

    /// Some skill with the id `id` is registered.
    pub open spec fn knows_id(self, id: usize) -> bool {
        exists|j: int| 0 <= j < self@.len() && (#[trigger] self@[j].id) == id
    }

    /// The registry built from `skills`.
    pub fn new(skills: Vec<Skill>) -> (r: SkillMgr)
        ensures
            r@ == skills@,
    {
        SkillMgr { skills }
    }

    /// The skill registered last under the id `id`.
    pub fn get(&self, id: usize) -> (r: &Skill)
        requires
            self.knows_id(id),
        ensures
            exists|j: int|
                {
                    &&& 0 <= j < self@.len()
                    &&& *r == self@[j]
                    &&& (#[trigger] self@[j].id) == id
                    &&& forall|t: int| j < t < self@.len() ==> (#[trigger] self@[t].id) != id
                },
    {
        let mut i: usize = self.skills.len();

        while i > 0
            invariant
                0 <= i <= self@.len(),
                forall|t: int| i <= t < self@.len() ==> (#[trigger] self@[t].id) != id,
            decreases i,
        {
            i = i - 1;
            if self.skills[i].id == id {
                return &self.skills[i];
            }
        }

        proof {
            let j = choose|j: int| 0 <= j < self@.len() && (#[trigger] self@[j].id) == id;
            assert(false);
        }
        unreached()
    }

    /// The id of the skill registered last under the name `name`, if any.
    pub fn get_id(&self, name: &str) -> (r: Option<usize>)
        ensures
            match r {
                Some(id) => exists|j: int|
                    {
                        &&& 0 <= j < self@.len()
                        &&& (#[trigger] self@[j].name)@ == name@
                        &&& self@[j].id == id
                        &&& forall|t: int|
                            j < t < self@.len() ==> (#[trigger] self@[t].name)@ != name@
                    },
                None => forall|j: int|
                    0 <= j < self@.len() ==> (#[trigger] self@[j].name)@ != name@,
            },
    {
        let wanted = name.to_owned();
        let mut i: usize = self.skills.len();

        while i > 0
            invariant
                0 <= i <= self@.len(),
                wanted@ == name@,
                forall|t: int| i <= t < self@.len() ==> (#[trigger] self@[t].name)@ != name@,
            decreases i,
        {
            i = i - 1;
            if self.skills[i].name == wanted {
                return Some(self.skills[i].id);
            }
        }

        None
    }
}

/// A fluent builder for the skill registry: each created skill gets the
/// next id, counted from zero, and no default rank.
pub struct SkillBuilder {
    skills: Vec<Skill>,
}

impl SkillBuilder {
    /// The skills created so far, in creation order.
    pub closed spec fn view(self) -> Seq<Skill> {
        self.skills@
    }

    /// Append a skill named `name`; its id is its position in the creation
    /// order.
    pub fn create(self, name: String) -> (r: SkillBuilder)
        ensures
            r@.len() == self@.len() + 1,
            r@.drop_last() == self@,
            r@.last().id == self@.len(),
            r@.last().name@ == name@,
            r@.last().default is None,
    {
        let mut this = self;
        let id = this.skills.len();
        this.skills.push(Skill { id, name, default: None });
        proof {
            assert(this@.drop_last() =~= self@);
        }
        this
    }

    /// Finalize into the skill registry.
    pub fn build(self) -> (r: SkillMgr)
        ensures
            r@ == self@,
    {
        SkillMgr::new(self.skills)
    }
}

impl Default for SkillBuilder {
    /// A builder with no skills yet.
    fn default() -> (r: SkillBuilder)
        ensures
            r@ == Seq::<Skill>::empty(),
    {
        SkillBuilder { skills: Vec::new() }
    }
}

} // verus!
